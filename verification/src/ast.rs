//! The surface syntax that the desugaring passes rewrite: expressions,
//! patterns and type expressions with their source spans, their
//! mathematical views, and deep copies.

use vstd::prelude::*;

use crate::ty::string_clone;

verus! {

/// A source region (byte offsets).
#[derive(Clone, Copy, Debug, PartialEq, Eq, Structural)]
pub struct Span {
    pub start: usize,
    pub end: usize,
}

impl Span {
    /// The span given to nodes that the compiler synthesises.
    pub fn synthetic() -> (r: Span)
        ensures
            r == spec_synthetic(),
    {
        Span { start: 0, end: 0 }
    }
}

pub open spec fn spec_synthetic() -> Span {
    Span { start: 0, end: 0 }
}

/// A node with its source span.
#[derive(Debug)]
pub struct Spanned<T> {
    pub node: T,
    pub span: Span,
}

impl<T> Spanned<T> {
    pub fn new(node: T, span: Span) -> (r: Spanned<T>)
        ensures
            r.node == node,
            r.span == span,
    {
        Spanned { node, span }
    }
}

/// Mathematical counterpart of [`Spanned`].
pub struct SpecSpanned<T> {
    pub node: T,
    pub span: Span,
}

/// A type expression as written in the source.
#[derive(Debug)]
pub enum TypeExpr {
    Named(String),
    Applied { name: String, args: Vec<Spanned<TypeExpr>> },
}

pub enum SpecTypeExpr {
    Named(Seq<char>),
    Applied { name: Seq<char>, args: Seq<SpecSpanned<SpecTypeExpr>> },
}

/// A pattern as written in the source.
#[derive(Debug)]
pub enum Pattern {
    Ident(String),
    Wildcard,
    Literal(String),
    Variant { enum_name: String, variant: String, payload: Option<Vec<Spanned<Pattern>>> },
    Tuple(Vec<Spanned<Pattern>>),
    Cons { head: Box<Spanned<Pattern>>, tail: Box<Spanned<Pattern>> },
    Nil,
}

pub enum SpecPattern {
    Ident(Seq<char>),
    Wildcard,
    Literal(Seq<char>),
    Variant { enum_name: Seq<char>, variant: Seq<char>, payload: Option<Seq<SpecSpanned<SpecPattern>>> },
    Tuple(Seq<SpecSpanned<SpecPattern>>),
    Cons { head: Box<SpecSpanned<SpecPattern>>, tail: Box<SpecSpanned<SpecPattern>> },
    Nil,
}

/// A guarded alternative of a lambda clause; `condition` is `None` for
/// `otherwise`.
#[derive(Debug)]
pub struct GuardClause {
    pub condition: Option<Spanned<Expr>>,
    pub body: Spanned<Expr>,
}

/// A `with` binding of a lambda clause: `name := value`.
#[derive(Debug)]
pub struct WithBinding {
    pub name: String,
    pub value: Spanned<Expr>,
}

/// An arm of a `match`.
#[derive(Debug)]
pub struct MatchArm {
    /// `None` for the catch-all arm.
    pub pattern: Option<Spanned<Pattern>>,
    pub guard: Option<Spanned<Expr>>,
    pub body: Spanned<Expr>,
}

/// An expression.
#[derive(Debug)]
pub enum Expr {
    IntLit { text: String },
    FloatLit { text: String },
    TextLit { text: String },
    Ident { name: String },
    Unit,
    /// The placeholder `_` of partial application.
    Hole,
    VariantQual { enum_name: String, variant: String },
    Break,
    Continue,
    /// `lhs |> rhs`.
    Pipe { lhs: Box<Spanned<Expr>>, rhs: Box<Spanned<Expr>> },
    /// `lhs | rhs` (fallback, not a pipe).
    PipeFallback { lhs: Box<Spanned<Expr>>, rhs: Box<Spanned<Expr>> },
    Apply { callee: Box<Spanned<Expr>>, args: Vec<Spanned<Expr>> },
    Let { name: String, value: Box<Spanned<Expr>> },
    Var { name: String, value: Box<Spanned<Expr>> },
    Lambda {
        patterns: Vec<Spanned<Pattern>>,
        body: Box<Spanned<Expr>>,
        guards: Vec<GuardClause>,
        with_bindings: Vec<WithBinding>,
    },
    Match { scrutinee: Box<Spanned<Expr>>, arms: Vec<MatchArm> },
    TypeAscription { expr: Box<Spanned<Expr>>, ty: Spanned<TypeExpr> },
    Grouping { inner: Box<Spanned<Expr>> },
    Tuple { elements: Vec<Spanned<Expr>> },
    ActionCall { callee: String, args: Box<Spanned<Expr>> },
    Return(Box<Spanned<Expr>>),
    Loop { body: Vec<Spanned<Expr>> },
    /// A sequence of expressions whose value is the last one's.
    Block { stmts: Vec<Spanned<Expr>> },
    Question(Box<Spanned<Expr>>),
    /// `name = value` on a `var` binding.
    Reassign { name: String, value: Box<Spanned<Expr>> },
    /// `expr.field` or `expr.0`.
    DotAccess { expr: Box<Spanned<Expr>>, index: DotIndex },
    /// `..` inside a collection literal.
    Spread,
    /// The default step of a range literal, which the step's type gives
    /// (where `[a.._..b]` was written).
    DefaultStep,
    ListLit { elements: Vec<Spanned<Expr>> },
    ArrayLit { elements: Vec<Spanned<Expr>> },
    RangeLit {
        start: Box<Spanned<Expr>>,
        step: Box<Spanned<Expr>>,
        end: Box<Spanned<Expr>>,
        inclusive: bool,
    },
    ForIn { var_name: String, iterable: Box<Spanned<Expr>>, body: Vec<Spanned<Expr>> },
    In { item: Box<Spanned<Expr>>, collection: Box<Spanned<Expr>> },
    ChannelSend { channel: Box<Spanned<Expr>>, value: Box<Spanned<Expr>> },
    ChannelRecv { channel: Box<Spanned<Expr>>, bind_name: String },
    Select {
        arms: Vec<SelectArm>,
        timeout_ms: Option<Box<Spanned<Expr>>>,
        timeout_body: Option<Box<Spanned<Expr>>>,
    },
}

/// What follows the dot of a `DotAccess`.
#[derive(Debug)]
pub enum DotIndex {
    Field(String),
    Int(i64),
}

pub enum SpecDotIndex {
    Field(Seq<char>),
    Int(i64),
}

/// An arm of a `select`: receive from `channel` into `bind_name`, then `body`.
#[derive(Debug)]
pub struct SelectArm {
    pub channel: Spanned<Expr>,
    pub bind_name: String,
    pub body: Spanned<Expr>,
}

pub struct SpecSelectArm {
    pub channel: SpecSpanned<SpecExpr>,
    pub bind_name: Seq<char>,
    pub body: SpecSpanned<SpecExpr>,
}

pub struct SpecGuardClause {
    pub condition: Option<SpecSpanned<SpecExpr>>,
    pub body: SpecSpanned<SpecExpr>,
}

pub struct SpecWithBinding {
    pub name: Seq<char>,
    pub value: SpecSpanned<SpecExpr>,
}

pub struct SpecMatchArm {
    pub pattern: Option<SpecSpanned<SpecPattern>>,
    pub guard: Option<SpecSpanned<SpecExpr>>,
    pub body: SpecSpanned<SpecExpr>,
}

pub type SExpr = SpecSpanned<SpecExpr>;

pub enum SpecExpr {
    IntLit { text: Seq<char> },
    FloatLit { text: Seq<char> },
    TextLit { text: Seq<char> },
    Ident { name: Seq<char> },
    Unit,
    Hole,
    VariantQual { enum_name: Seq<char>, variant: Seq<char> },
    Break,
    Continue,
    Pipe { lhs: Box<SExpr>, rhs: Box<SExpr> },
    PipeFallback { lhs: Box<SExpr>, rhs: Box<SExpr> },
    Apply { callee: Box<SExpr>, args: Seq<SExpr> },
    Let { name: Seq<char>, value: Box<SExpr> },
    Var { name: Seq<char>, value: Box<SExpr> },
    Lambda {
        patterns: Seq<SpecSpanned<SpecPattern>>,
        body: Box<SExpr>,
        guards: Seq<SpecGuardClause>,
        with_bindings: Seq<SpecWithBinding>,
    },
    Match { scrutinee: Box<SExpr>, arms: Seq<SpecMatchArm> },
    TypeAscription { expr: Box<SExpr>, ty: SpecSpanned<SpecTypeExpr> },
    Grouping { inner: Box<SExpr> },
    Tuple { elements: Seq<SExpr> },
    ActionCall { callee: Seq<char>, args: Box<SExpr> },
    Return(Box<SExpr>),
    Loop { body: Seq<SExpr> },
    Block { stmts: Seq<SExpr> },
    Question(Box<SExpr>),
    Reassign { name: Seq<char>, value: Box<SExpr> },
    DotAccess { expr: Box<SExpr>, index: SpecDotIndex },
    Spread,
    DefaultStep,
    ListLit { elements: Seq<SExpr> },
    ArrayLit { elements: Seq<SExpr> },
    RangeLit { start: Box<SExpr>, step: Box<SExpr>, end: Box<SExpr>, inclusive: bool },
    ForIn { var_name: Seq<char>, iterable: Box<SExpr>, body: Seq<SExpr> },
    In { item: Box<SExpr>, collection: Box<SExpr> },
    ChannelSend { channel: Box<SExpr>, value: Box<SExpr> },
    ChannelRecv { channel: Box<SExpr>, bind_name: Seq<char> },
    Select {
        arms: Seq<SpecSelectArm>,
        timeout_ms: Option<Box<SExpr>>,
        timeout_body: Option<Box<SExpr>>,
    },
}

// ── views ───────────────────────────────────────────────────────────

pub open spec fn type_expr_view(t: TypeExpr) -> SpecTypeExpr
    decreases t,
{
    match t {
        TypeExpr::Named(n) => SpecTypeExpr::Named(n@),
        TypeExpr::Applied { name, args } => SpecTypeExpr::Applied {
            name: name@,
            args: stype_exprs_view(args@),
        },
    }
}

pub open spec fn stype_expr_view(t: Spanned<TypeExpr>) -> SpecSpanned<SpecTypeExpr>
    decreases t,
{
    SpecSpanned { node: type_expr_view(t.node), span: t.span }
}

pub open spec fn stype_exprs_view(ts: Seq<Spanned<TypeExpr>>) -> Seq<SpecSpanned<SpecTypeExpr>>
    decreases ts,
{
    Seq::new(
        ts.len(),
        |i: int|
            if 0 <= i < ts.len() {
                stype_expr_view(ts[i])
            } else {
                SpecSpanned { node: SpecTypeExpr::Named(Seq::empty()), span: spec_synthetic() }
            },
    )
}

pub open spec fn pattern_view(p: Pattern) -> SpecPattern
    decreases p,
{
    match p {
        Pattern::Ident(n) => SpecPattern::Ident(n@),
        Pattern::Wildcard => SpecPattern::Wildcard,
        Pattern::Literal(t) => SpecPattern::Literal(t@),
        Pattern::Variant { enum_name, variant, payload } => SpecPattern::Variant {
            enum_name: enum_name@,
            variant: variant@,
            payload: match payload {
                Some(v) => Some(spatterns_view(v@)),
                None => None,
            },
        },
        Pattern::Tuple(v) => SpecPattern::Tuple(spatterns_view(v@)),
        Pattern::Cons { head, tail } => SpecPattern::Cons {
            head: Box::new(spattern_view(*head)),
            tail: Box::new(spattern_view(*tail)),
        },
        Pattern::Nil => SpecPattern::Nil,
    }
}

pub open spec fn spattern_view(p: Spanned<Pattern>) -> SpecSpanned<SpecPattern>
    decreases p,
{
    SpecSpanned { node: pattern_view(p.node), span: p.span }
}

pub open spec fn opt_spattern_view(p: Option<Spanned<Pattern>>) -> Option<SpecSpanned<SpecPattern>> {
    match p {
        Some(q) => Some(spattern_view(q)),
        None => None,
    }
}

pub open spec fn spatterns_view(ps: Seq<Spanned<Pattern>>) -> Seq<SpecSpanned<SpecPattern>>
    decreases ps,
{
    Seq::new(
        ps.len(),
        |i: int|
            if 0 <= i < ps.len() {
                spattern_view(ps[i])
            } else {
                SpecSpanned { node: SpecPattern::Nil, span: spec_synthetic() }
            },
    )
}

pub open spec fn expr_view(e: Expr) -> SpecExpr
    decreases e,
{
    match e {
        Expr::IntLit { text } => SpecExpr::IntLit { text: text@ },
        Expr::FloatLit { text } => SpecExpr::FloatLit { text: text@ },
        Expr::TextLit { text } => SpecExpr::TextLit { text: text@ },
        Expr::Ident { name } => SpecExpr::Ident { name: name@ },
        Expr::Unit => SpecExpr::Unit,
        Expr::Hole => SpecExpr::Hole,
        Expr::VariantQual { enum_name, variant } => SpecExpr::VariantQual {
            enum_name: enum_name@,
            variant: variant@,
        },
        Expr::Break => SpecExpr::Break,
        Expr::Continue => SpecExpr::Continue,
        Expr::Pipe { lhs, rhs } => SpecExpr::Pipe {
            lhs: Box::new(sexpr_view(*lhs)),
            rhs: Box::new(sexpr_view(*rhs)),
        },
        Expr::PipeFallback { lhs, rhs } => SpecExpr::PipeFallback {
            lhs: Box::new(sexpr_view(*lhs)),
            rhs: Box::new(sexpr_view(*rhs)),
        },
        Expr::Apply { callee, args } => SpecExpr::Apply {
            callee: Box::new(sexpr_view(*callee)),
            args: sexprs_view(args@),
        },
        Expr::Let { name, value } => SpecExpr::Let { name: name@, value: Box::new(sexpr_view(*value)) },
        Expr::Var { name, value } => SpecExpr::Var { name: name@, value: Box::new(sexpr_view(*value)) },
        Expr::Lambda { patterns, body, guards, with_bindings } => SpecExpr::Lambda {
            patterns: spatterns_view(patterns@),
            body: Box::new(sexpr_view(*body)),
            guards: guards_view(guards@),
            with_bindings: withs_view(with_bindings@),
        },
        Expr::Match { scrutinee, arms } => SpecExpr::Match {
            scrutinee: Box::new(sexpr_view(*scrutinee)),
            arms: arms_view(arms@),
        },
        Expr::TypeAscription { expr, ty } => SpecExpr::TypeAscription {
            expr: Box::new(sexpr_view(*expr)),
            ty: stype_expr_view(ty),
        },
        Expr::Grouping { inner } => SpecExpr::Grouping { inner: Box::new(sexpr_view(*inner)) },
        Expr::Tuple { elements } => SpecExpr::Tuple { elements: sexprs_view(elements@) },
        Expr::ActionCall { callee, args } => SpecExpr::ActionCall {
            callee: callee@,
            args: Box::new(sexpr_view(*args)),
        },
        Expr::Return(inner) => SpecExpr::Return(Box::new(sexpr_view(*inner))),
        Expr::Loop { body } => SpecExpr::Loop { body: sexprs_view(body@) },
        Expr::Block { stmts } => SpecExpr::Block { stmts: sexprs_view(stmts@) },
        Expr::Question(inner) => SpecExpr::Question(Box::new(sexpr_view(*inner))),
        Expr::Reassign { name, value } => SpecExpr::Reassign {
            name: name@,
            value: Box::new(sexpr_view(*value)),
        },
        Expr::DotAccess { expr, index } => SpecExpr::DotAccess {
            expr: Box::new(sexpr_view(*expr)),
            index: dot_index_view(index),
        },
        Expr::Spread => SpecExpr::Spread,
        Expr::DefaultStep => SpecExpr::DefaultStep,
        Expr::ListLit { elements } => SpecExpr::ListLit { elements: sexprs_view(elements@) },
        Expr::ArrayLit { elements } => SpecExpr::ArrayLit { elements: sexprs_view(elements@) },
        Expr::RangeLit { start, step, end, inclusive } => SpecExpr::RangeLit {
            start: Box::new(sexpr_view(*start)),
            step: Box::new(sexpr_view(*step)),
            end: Box::new(sexpr_view(*end)),
            inclusive,
        },
        Expr::ForIn { var_name, iterable, body } => SpecExpr::ForIn {
            var_name: var_name@,
            iterable: Box::new(sexpr_view(*iterable)),
            body: sexprs_view(body@),
        },
        Expr::In { item, collection } => SpecExpr::In {
            item: Box::new(sexpr_view(*item)),
            collection: Box::new(sexpr_view(*collection)),
        },
        Expr::ChannelSend { channel, value } => SpecExpr::ChannelSend {
            channel: Box::new(sexpr_view(*channel)),
            value: Box::new(sexpr_view(*value)),
        },
        Expr::ChannelRecv { channel, bind_name } => SpecExpr::ChannelRecv {
            channel: Box::new(sexpr_view(*channel)),
            bind_name: bind_name@,
        },
        Expr::Select { arms, timeout_ms, timeout_body } => SpecExpr::Select {
            arms: select_arms_view(arms@),
            timeout_ms: opt_bexpr_view(timeout_ms),
            timeout_body: opt_bexpr_view(timeout_body),
        },
    }
}

pub open spec fn dot_index_view(d: DotIndex) -> SpecDotIndex {
    match d {
        DotIndex::Field(n) => SpecDotIndex::Field(n@),
        DotIndex::Int(i) => SpecDotIndex::Int(i),
    }
}

pub open spec fn opt_bexpr_view(e: Option<Box<Spanned<Expr>>>) -> Option<Box<SExpr>>
    decreases e,
{
    match e {
        Some(x) => Some(Box::new(sexpr_view(*x))),
        None => None,
    }
}

pub open spec fn select_arm_view(a: SelectArm) -> SpecSelectArm
    decreases a,
{
    SpecSelectArm {
        channel: sexpr_view(a.channel),
        bind_name: a.bind_name@,
        body: sexpr_view(a.body),
    }
}

pub open spec fn select_arms_view(arms: Seq<SelectArm>) -> Seq<SpecSelectArm>
    decreases arms,
{
    Seq::new(
        arms.len(),
        |i: int|
            if 0 <= i < arms.len() {
                select_arm_view(arms[i])
            } else {
                SpecSelectArm {
                    channel: SpecSpanned { node: SpecExpr::Unit, span: spec_synthetic() },
                    bind_name: Seq::empty(),
                    body: SpecSpanned { node: SpecExpr::Unit, span: spec_synthetic() },
                }
            },
    )
}

pub open spec fn sexpr_view(e: Spanned<Expr>) -> SExpr
    decreases e,
{
    SpecSpanned { node: expr_view(e.node), span: e.span }
}

pub open spec fn opt_sexpr_view(e: Option<Spanned<Expr>>) -> Option<SExpr>
    decreases e,
{
    match e {
        Some(x) => Some(sexpr_view(x)),
        None => None,
    }
}

pub open spec fn sexprs_view(es: Seq<Spanned<Expr>>) -> Seq<SExpr>
    decreases es,
{
    Seq::new(
        es.len(),
        |i: int|
            if 0 <= i < es.len() {
                sexpr_view(es[i])
            } else {
                SpecSpanned { node: SpecExpr::Unit, span: spec_synthetic() }
            },
    )
}

pub open spec fn guard_view(g: GuardClause) -> SpecGuardClause
    decreases g,
{
    SpecGuardClause { condition: opt_sexpr_view(g.condition), body: sexpr_view(g.body) }
}

pub open spec fn guards_view(gs: Seq<GuardClause>) -> Seq<SpecGuardClause>
    decreases gs,
{
    Seq::new(
        gs.len(),
        |i: int|
            if 0 <= i < gs.len() {
                guard_view(gs[i])
            } else {
                SpecGuardClause {
                    condition: None,
                    body: SpecSpanned { node: SpecExpr::Unit, span: spec_synthetic() },
                }
            },
    )
}

pub open spec fn with_view(w: WithBinding) -> SpecWithBinding
    decreases w,
{
    SpecWithBinding { name: w.name@, value: sexpr_view(w.value) }
}

pub open spec fn withs_view(ws: Seq<WithBinding>) -> Seq<SpecWithBinding>
    decreases ws,
{
    Seq::new(
        ws.len(),
        |i: int|
            if 0 <= i < ws.len() {
                with_view(ws[i])
            } else {
                SpecWithBinding {
                    name: Seq::empty(),
                    value: SpecSpanned { node: SpecExpr::Unit, span: spec_synthetic() },
                }
            },
    )
}

pub open spec fn arm_view(a: MatchArm) -> SpecMatchArm
    decreases a,
{
    SpecMatchArm {
        pattern: opt_spattern_view(a.pattern),
        guard: opt_sexpr_view(a.guard),
        body: sexpr_view(a.body),
    }
}

pub open spec fn arms_view(arms: Seq<MatchArm>) -> Seq<SpecMatchArm>
    decreases arms,
{
    Seq::new(
        arms.len(),
        |i: int|
            if 0 <= i < arms.len() {
                arm_view(arms[i])
            } else {
                SpecMatchArm {
                    pattern: None,
                    guard: None,
                    body: SpecSpanned { node: SpecExpr::Unit, span: spec_synthetic() },
                }
            },
    )
}

impl View for Expr {
    type V = SpecExpr;

    open spec fn view(&self) -> SpecExpr {
        expr_view(*self)
    }
}

impl View for Spanned<Expr> {
    type V = SExpr;

    open spec fn view(&self) -> SExpr {
        sexpr_view(*self)
    }
}

impl View for Spanned<Pattern> {
    type V = SpecSpanned<SpecPattern>;

    open spec fn view(&self) -> SpecSpanned<SpecPattern> {
        spattern_view(*self)
    }
}

impl View for Spanned<TypeExpr> {
    type V = SpecSpanned<SpecTypeExpr>;

    open spec fn view(&self) -> SpecSpanned<SpecTypeExpr> {
        stype_expr_view(*self)
    }
}

// ── deep copies ─────────────────────────────────────────────────────

/// Deep copy of a spanned type expression.
pub fn clone_type_expr(t: &Spanned<TypeExpr>) -> (r: Spanned<TypeExpr>)
    ensures
        r@ == t@,
    decreases t, 1nat,
{
    let node = match &t.node {
        TypeExpr::Named(n) => TypeExpr::Named(string_clone(n)),
        TypeExpr::Applied { name, args } => TypeExpr::Applied {
            name: string_clone(name),
            args: clone_type_exprs(args),
        },
    };
    Spanned { node, span: t.span }
}

/// Deep copy of a list of spanned type expressions.
pub fn clone_type_exprs(ts: &Vec<Spanned<TypeExpr>>) -> (r: Vec<Spanned<TypeExpr>>)
    ensures
        stype_exprs_view(r@) == stype_exprs_view(ts@),
    decreases ts@, 0nat,
{
    let mut out: Vec<Spanned<TypeExpr>> = Vec::new();
    let mut i: usize = 0;
    while i < ts.len()
        invariant
            i <= ts.len(),
            out@.len() == i,
            forall|j: int| 0 <= j < i ==> stype_expr_view(#[trigger] out@[j]) == stype_expr_view(ts@[j]),
        decreases ts.len() - i,
    {
        proof {
            assert(decreases_to!(ts@ => ts@[i as int]));
        }
        let c = clone_type_expr(&ts[i]);
        out.push(c);
        i += 1;
    }
    assert(stype_exprs_view(out@) =~= stype_exprs_view(ts@));
    out
}

/// Deep copy of a spanned pattern.
pub fn clone_pattern(p: &Spanned<Pattern>) -> (r: Spanned<Pattern>)
    ensures
        r@ == p@,
    decreases p, 1nat,
{
    let node = match &p.node {
        Pattern::Ident(n) => Pattern::Ident(string_clone(n)),
        Pattern::Wildcard => Pattern::Wildcard,
        Pattern::Literal(t) => Pattern::Literal(string_clone(t)),
        Pattern::Variant { enum_name, variant, payload } => Pattern::Variant {
            enum_name: string_clone(enum_name),
            variant: string_clone(variant),
            payload: match payload {
                Some(v) => Some(clone_patterns(v)),
                None => None,
            },
        },
        Pattern::Tuple(v) => Pattern::Tuple(clone_patterns(v)),
        Pattern::Cons { head, tail } => Pattern::Cons {
            head: Box::new(clone_pattern(head)),
            tail: Box::new(clone_pattern(tail)),
        },
        Pattern::Nil => Pattern::Nil,
    };
    Spanned { node, span: p.span }
}

/// Deep copy of an optional spanned pattern.
pub fn clone_opt_pattern(p: &Option<Spanned<Pattern>>) -> (r: Option<Spanned<Pattern>>)
    ensures
        opt_spattern_view(r) == opt_spattern_view(*p),
{
    match p {
        Some(q) => Some(clone_pattern(q)),
        None => None,
    }
}

/// Deep copy of a list of spanned patterns.
pub fn clone_patterns(ps: &Vec<Spanned<Pattern>>) -> (r: Vec<Spanned<Pattern>>)
    ensures
        spatterns_view(r@) == spatterns_view(ps@),
    decreases ps@, 0nat,
{
    let mut out: Vec<Spanned<Pattern>> = Vec::new();
    let mut i: usize = 0;
    while i < ps.len()
        invariant
            i <= ps.len(),
            out@.len() == i,
            forall|j: int| 0 <= j < i ==> spattern_view(#[trigger] out@[j]) == spattern_view(ps@[j]),
        decreases ps.len() - i,
    {
        proof {
            assert(decreases_to!(ps@ => ps@[i as int]));
        }
        let c = clone_pattern(&ps[i]);
        out.push(c);
        i += 1;
    }
    assert(spatterns_view(out@) =~= spatterns_view(ps@));
    out
}

/// Copy of what follows a dot.
pub fn clone_dot_index(d: &DotIndex) -> (r: DotIndex)
    ensures
        dot_index_view(r) == dot_index_view(*d),
{
    match d {
        DotIndex::Field(n) => DotIndex::Field(string_clone(n)),
        DotIndex::Int(i) => DotIndex::Int(*i),
    }
}

/// Deep copy of a spanned expression.
pub fn clone_expr(e: &Spanned<Expr>) -> (r: Spanned<Expr>)
    ensures
        r@ == e@,
    decreases e, 1nat,
{
    let node = match &e.node {
        Expr::IntLit { text } => Expr::IntLit { text: string_clone(text) },
        Expr::FloatLit { text } => Expr::FloatLit { text: string_clone(text) },
        Expr::TextLit { text } => Expr::TextLit { text: string_clone(text) },
        Expr::Ident { name } => Expr::Ident { name: string_clone(name) },
        Expr::Unit => Expr::Unit,
        Expr::Hole => Expr::Hole,
        Expr::VariantQual { enum_name, variant } => Expr::VariantQual {
            enum_name: string_clone(enum_name),
            variant: string_clone(variant),
        },
        Expr::Break => Expr::Break,
        Expr::Continue => Expr::Continue,
        Expr::Pipe { lhs, rhs } => Expr::Pipe {
            lhs: Box::new(clone_expr(lhs)),
            rhs: Box::new(clone_expr(rhs)),
        },
        Expr::PipeFallback { lhs, rhs } => Expr::PipeFallback {
            lhs: Box::new(clone_expr(lhs)),
            rhs: Box::new(clone_expr(rhs)),
        },
        Expr::Apply { callee, args } => Expr::Apply {
            callee: Box::new(clone_expr(callee)),
            args: clone_exprs(args),
        },
        Expr::Let { name, value } => Expr::Let {
            name: string_clone(name),
            value: Box::new(clone_expr(value)),
        },
        Expr::Var { name, value } => Expr::Var {
            name: string_clone(name),
            value: Box::new(clone_expr(value)),
        },
        Expr::Lambda { patterns, body, guards, with_bindings } => Expr::Lambda {
            patterns: clone_patterns(patterns),
            body: Box::new(clone_expr(body)),
            guards: clone_guards(guards),
            with_bindings: clone_withs(with_bindings),
        },
        Expr::Match { scrutinee, arms } => Expr::Match {
            scrutinee: Box::new(clone_expr(scrutinee)),
            arms: clone_arms(arms),
        },
        Expr::TypeAscription { expr, ty } => Expr::TypeAscription {
            expr: Box::new(clone_expr(expr)),
            ty: clone_type_expr(ty),
        },
        Expr::Grouping { inner } => Expr::Grouping { inner: Box::new(clone_expr(inner)) },
        Expr::Tuple { elements } => Expr::Tuple { elements: clone_exprs(elements) },
        Expr::ActionCall { callee, args } => Expr::ActionCall {
            callee: string_clone(callee),
            args: Box::new(clone_expr(args)),
        },
        Expr::Return(inner) => Expr::Return(Box::new(clone_expr(inner))),
        Expr::Loop { body } => Expr::Loop { body: clone_exprs(body) },
        Expr::Block { stmts } => Expr::Block { stmts: clone_exprs(stmts) },
        Expr::Question(inner) => Expr::Question(Box::new(clone_expr(inner))),
        Expr::Reassign { name, value } => Expr::Reassign {
            name: string_clone(name),
            value: Box::new(clone_expr(value)),
        },
        Expr::DotAccess { expr, index } => Expr::DotAccess {
            expr: Box::new(clone_expr(expr)),
            index: clone_dot_index(index),
        },
        Expr::Spread => Expr::Spread,
        Expr::DefaultStep => Expr::DefaultStep,
        Expr::ListLit { elements } => Expr::ListLit { elements: clone_exprs(elements) },
        Expr::ArrayLit { elements } => Expr::ArrayLit { elements: clone_exprs(elements) },
        Expr::RangeLit { start, step, end, inclusive } => Expr::RangeLit {
            start: Box::new(clone_expr(start)),
            step: Box::new(clone_expr(step)),
            end: Box::new(clone_expr(end)),
            inclusive: *inclusive,
        },
        Expr::ForIn { var_name, iterable, body } => Expr::ForIn {
            var_name: string_clone(var_name),
            iterable: Box::new(clone_expr(iterable)),
            body: clone_exprs(body),
        },
        Expr::In { item, collection } => Expr::In {
            item: Box::new(clone_expr(item)),
            collection: Box::new(clone_expr(collection)),
        },
        Expr::ChannelSend { channel, value } => Expr::ChannelSend {
            channel: Box::new(clone_expr(channel)),
            value: Box::new(clone_expr(value)),
        },
        Expr::ChannelRecv { channel, bind_name } => Expr::ChannelRecv {
            channel: Box::new(clone_expr(channel)),
            bind_name: string_clone(bind_name),
        },
        Expr::Select { arms, timeout_ms, timeout_body } => {
            let tm = match timeout_ms {
                Some(t) => Some(Box::new(clone_expr(t))),
                None => None,
            };
            assert(opt_bexpr_view(tm) == opt_bexpr_view(*timeout_ms));
            let tb = match timeout_body {
                Some(t) => Some(Box::new(clone_expr(t))),
                None => None,
            };
            assert(opt_bexpr_view(tb) == opt_bexpr_view(*timeout_body));
            Expr::Select { arms: clone_select_arms(arms), timeout_ms: tm, timeout_body: tb }
        },
    };
    Spanned { node, span: e.span }
}

/// Deep copy of an optional expression.
pub fn clone_opt_expr(e: &Option<Spanned<Expr>>) -> (r: Option<Spanned<Expr>>)
    ensures
        opt_sexpr_view(r) == opt_sexpr_view(*e),
    decreases e, 2nat,
{
    match e {
        Some(x) => Some(clone_expr(x)),
        None => None,
    }
}

/// Deep copy of a list of expressions.
pub fn clone_exprs(v: &Vec<Spanned<Expr>>) -> (r: Vec<Spanned<Expr>>)
    ensures
        sexprs_view(r@) == sexprs_view(v@),
    decreases v@, 0nat,
{
    let mut out: Vec<Spanned<Expr>> = Vec::new();
    let mut i: usize = 0;
    while i < v.len()
        invariant
            i <= v.len(),
            out@.len() == i,
            forall|j: int| 0 <= j < i ==> sexpr_view(#[trigger] out@[j]) == sexpr_view(v@[j]),
        decreases v.len() - i,
    {
        proof {
            assert(decreases_to!(v@ => v@[i as int]));
        }
        let c = clone_expr(&v[i]);
        out.push(c);
        i += 1;
    }
    assert(sexprs_view(out@) =~= sexprs_view(v@));
    out
}

/// Deep copy of the guarded alternatives of a lambda clause.
pub fn clone_guards(v: &Vec<GuardClause>) -> (r: Vec<GuardClause>)
    ensures
        guards_view(r@) == guards_view(v@),
    decreases v@, 0nat,
{
    let mut out: Vec<GuardClause> = Vec::new();
    let mut i: usize = 0;
    while i < v.len()
        invariant
            i <= v.len(),
            out@.len() == i,
            forall|j: int| 0 <= j < i ==> guard_view(#[trigger] out@[j]) == guard_view(v@[j]),
        decreases v.len() - i,
    {
        proof {
            assert(decreases_to!(v@ => v@[i as int]));
            assert(decreases_to!(v@[i as int] => v@[i as int].condition));
            assert(decreases_to!(v@[i as int] => v@[i as int].body));
        }
        let g = GuardClause {
            condition: clone_opt_expr(&v[i].condition),
            body: clone_expr(&v[i].body),
        };
        out.push(g);
        i += 1;
    }
    assert(guards_view(out@) =~= guards_view(v@));
    out
}

/// Deep copy of the `with` bindings of a lambda clause.
pub fn clone_withs(v: &Vec<WithBinding>) -> (r: Vec<WithBinding>)
    ensures
        withs_view(r@) == withs_view(v@),
    decreases v@, 0nat,
{
    let mut out: Vec<WithBinding> = Vec::new();
    let mut i: usize = 0;
    while i < v.len()
        invariant
            i <= v.len(),
            out@.len() == i,
            forall|j: int| 0 <= j < i ==> with_view(#[trigger] out@[j]) == with_view(v@[j]),
        decreases v.len() - i,
    {
        proof {
            assert(decreases_to!(v@ => v@[i as int]));
            assert(decreases_to!(v@[i as int] => v@[i as int].value));
        }
        let w = WithBinding { name: string_clone(&v[i].name), value: clone_expr(&v[i].value) };
        out.push(w);
        i += 1;
    }
    assert(withs_view(out@) =~= withs_view(v@));
    out
}

/// Deep copy of the arms of a `match`.
pub fn clone_arms(v: &Vec<MatchArm>) -> (r: Vec<MatchArm>)
    ensures
        arms_view(r@) == arms_view(v@),
    decreases v@, 0nat,
{
    let mut out: Vec<MatchArm> = Vec::new();
    let mut i: usize = 0;
    while i < v.len()
        invariant
            i <= v.len(),
            out@.len() == i,
            forall|j: int| 0 <= j < i ==> arm_view(#[trigger] out@[j]) == arm_view(v@[j]),
        decreases v.len() - i,
    {
        proof {
            assert(decreases_to!(v@ => v@[i as int]));
            assert(decreases_to!(v@[i as int] => v@[i as int].guard));
            assert(decreases_to!(v@[i as int] => v@[i as int].body));
        }
        let a = MatchArm {
            pattern: clone_opt_pattern(&v[i].pattern),
            guard: clone_opt_expr(&v[i].guard),
            body: clone_expr(&v[i].body),
        };
        out.push(a);
        i += 1;
    }
    assert(arms_view(out@) =~= arms_view(v@));
    out
}

/// Deep copy of the arms of a `select`.
pub fn clone_select_arms(v: &Vec<SelectArm>) -> (r: Vec<SelectArm>)
    ensures
        select_arms_view(r@) == select_arms_view(v@),
    decreases v@, 0nat,
{
    let mut out: Vec<SelectArm> = Vec::new();
    let mut i: usize = 0;
    while i < v.len()
        invariant
            i <= v.len(),
            out@.len() == i,
            forall|j: int| 0 <= j < i ==> select_arm_view(#[trigger] out@[j]) == select_arm_view(v@[j]),
        decreases v.len() - i,
    {
        proof {
            assert(decreases_to!(v@ => v@[i as int]));
            assert(decreases_to!(v@[i as int] => v@[i as int].channel));
            assert(decreases_to!(v@[i as int] => v@[i as int].body));
        }
        let a = SelectArm {
            channel: clone_expr(&v[i].channel),
            bind_name: string_clone(&v[i].bind_name),
            body: clone_expr(&v[i].body),
        };
        out.push(a);
        i += 1;
    }
    assert(select_arms_view(out@) =~= select_arms_view(v@));
    out
}

} // verus!
