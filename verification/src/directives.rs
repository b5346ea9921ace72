//! Custom directives (`@name`): the body of each directive that decorates
//! an action or a function is inlined into it, as its hook says.
//!
//! - `Enter` runs the directive's statements before the body.
//! - `Exit` runs them at every exit point: the exit value is bound to
//!   `__result`, the statements run, and `__result` is the value.
//! - `ShortCircuit` binds the directive's value to `__decision` and runs the
//!   original body only when it is `Optional::None`.
//! - `Transform` is `Exit` whose value is the directive's last statement.
//!
//! Each inlining first binds the reflection variables `_name`, `_arity`,
//! `_types`, `_return_type`, `_is_action` and `_args` (and `_return` at an
//! exit) as `let` bindings.

use vstd::prelude::*;

use crate::ast::{
    arm_view, arms_view, guards_view, spatterns_view, withs_view, clone_expr, GuardClause, SpecGuardClause,
    SpecWithBinding, WithBinding, clone_opt_pattern, sexpr_view, sexprs_view, spec_synthetic, Expr, MatchArm,
    Pattern, SExpr, Span, SpecExpr, SpecMatchArm, SpecPattern, SpecSpanned, Spanned,
};
use crate::text::{names_view, owned, push_decimal, spec_decimal};
use crate::ty::string_clone;

verus! {

// ── statements ──────────────────────────────────────────────────────

/// A statement of an action body: an expression, and whether a semicolon
/// follows it (the last statement without one is the action's value).
#[derive(Debug)]
pub struct ActionStmt {
    pub expr: Spanned<Expr>,
    pub has_semicolon: bool,
}

pub struct SpecActionStmt {
    pub expr: SExpr,
    pub has_semicolon: bool,
}

pub open spec fn stmt_view(s: ActionStmt) -> SpecActionStmt {
    SpecActionStmt { expr: sexpr_view(s.expr), has_semicolon: s.has_semicolon }
}

pub open spec fn stmts_view(s: Seq<ActionStmt>) -> Seq<SpecActionStmt> {
    Seq::new(s.len(), |i: int| stmt_view(s[i]))
}

/// Deep copy of a statement.
pub fn clone_stmt(s: &ActionStmt) -> (r: ActionStmt)
    ensures
        stmt_view(r) == stmt_view(*s),
{
    ActionStmt { expr: clone_expr(&s.expr), has_semicolon: s.has_semicolon }
}

/// Deep copy of a list of statements.
pub fn clone_stmts(v: &Vec<ActionStmt>) -> (r: Vec<ActionStmt>)
    ensures
        stmts_view(r@) == stmts_view(v@),
{
    let mut out: Vec<ActionStmt> = Vec::new();
    let mut i: usize = 0;
    while i < v.len()
        invariant
            i <= v@.len(),
            out@.len() == i,
            forall|j: int| 0 <= j < i ==> stmt_view(#[trigger] out@[j]) == stmt_view(v@[j]),
        decreases v@.len() - i,
    {
        out.push(clone_stmt(&v[i]));
        i += 1;
    }
    assert(stmts_view(out@) =~= stmts_view(v@));
    out
}

// ── directives ──────────────────────────────────────────────────────

/// When a directive's body runs.
#[derive(Clone, Copy, Debug, PartialEq, Eq, Structural)]
pub enum Hook {
    Enter,
    Exit,
    ShortCircuit,
    Transform,
}

/// What a directive may decorate.
#[derive(Clone, Copy, Debug, PartialEq, Eq, Structural)]
pub enum Target {
    Action,
    Function,
    Any,
}

/// What identifies a directive definition: its name, what it decorates and
/// its hook.
#[derive(Debug)]
pub struct DirectiveKey {
    pub name: String,
    pub on: Target,
    pub when: Hook,
}

/// A directive definition: its key and the statements of its body.
#[derive(Debug)]
pub struct DirectiveDef {
    pub key: DirectiveKey,
    pub body: Vec<ActionStmt>,
}

pub struct SpecDirectiveDef {
    pub name: Seq<char>,
    pub on: Target,
    pub when: Hook,
    pub body: Seq<SpecActionStmt>,
}

impl View for DirectiveDef {
    type V = SpecDirectiveDef;

    open spec fn view(&self) -> SpecDirectiveDef {
        SpecDirectiveDef { name: self.key.name@, on: self.key.on, when: self.key.when, body: stmts_view(self.body@) }
    }
}

// ── reflection ──────────────────────────────────────────────────────

/// What the reflection variables say of the decorated item.
#[derive(Debug)]
pub struct ReflectionInfo {
    pub name: String,
    pub arity: usize,
    /// The names `_args` lists: a parameter's name, or `__arg_{i}`.
    pub arg_idents: Vec<String>,
    /// The parameter types as text, for `_types`.
    pub type_strings: Vec<String>,
    pub return_type_string: String,
    pub is_action: bool,
    /// Whether `_args` lists the parameters (pure functions have no
    /// parameter names, and bind `_args` to `()`).
    pub has_args: bool,
}

pub struct SpecReflection {
    pub name: Seq<char>,
    pub arity: nat,
    pub arg_idents: Seq<Seq<char>>,
    pub type_strings: Seq<Seq<char>>,
    pub return_type_string: Seq<char>,
    pub is_action: bool,
    pub has_args: bool,
}

impl View for ReflectionInfo {
    type V = SpecReflection;

    open spec fn view(&self) -> SpecReflection {
        SpecReflection {
            name: self.name@,
            arity: self.arity as nat,
            arg_idents: names_view(self.arg_idents@),
            type_strings: names_view(self.type_strings@),
            return_type_string: self.return_type_string@,
            is_action: self.is_action,
            has_args: self.has_args,
        }
    }
}

/// The name `_args` gives parameter `i`: its own name, or `__arg_{i}`.
pub open spec fn spec_arg_ident(i: int, name: Option<Seq<char>>) -> Seq<char> {
    match name {
        Some(n) => n,
        None => "__arg_"@ + spec_decimal(i as nat),
    }
}

pub open spec fn opt_names_view(ns: Seq<Option<String>>) -> Seq<Option<Seq<char>>> {
    Seq::new(
        ns.len(),
        |i: int|
            match ns[i] {
                Some(n) => Some(n@),
                None => None,
            },
    )
}

/// The reflection of an item with the given parameters.
pub open spec fn spec_reflection(
    name: Seq<char>,
    param_types: Seq<Seq<char>>,
    param_names: Seq<Option<Seq<char>>>,
    ret: Seq<char>,
    is_action: bool,
    has_args: bool,
) -> SpecReflection {
    SpecReflection {
        name,
        arity: param_types.len(),
        arg_idents: Seq::new(param_names.len(), |i: int| spec_arg_ident(i, param_names[i])),
        type_strings: param_types,
        return_type_string: ret,
        is_action,
        has_args,
    }
}

impl ReflectionInfo {
    /// The reflection of an action: its parameters have names, which `_args`
    /// lists. Types are given as their text.
    pub fn for_action(
        name: &str,
        param_types: &Vec<String>,
        param_names: &Vec<Option<String>>,
        ret: &String,
    ) -> (r: ReflectionInfo)
        ensures
            r@ == spec_reflection(name@, names_view(param_types@), opt_names_view(param_names@), ret@, true, true),
    {
        Self::new(name, param_types, param_names, ret, true, true)
    }

    /// The reflection of a pure function: its parameters are `__arg_0`,
    /// `__arg_1`, …, and `_args` is `()`.
    pub fn for_function(name: &str, param_types: &Vec<String>, ret: &String) -> (r: ReflectionInfo)
        ensures
            r@ == spec_reflection(
                name@,
                names_view(param_types@),
                Seq::new(param_types@.len(), |i: int| None::<Seq<char>>),
                ret@,
                false,
                false,
            ),
    {
        let mut param_names: Vec<Option<String>> = Vec::new();
        let mut i: usize = 0;
        while i < param_types.len()
            invariant
                i <= param_types@.len(),
                param_names@.len() == i,
                forall|j: int| 0 <= j < i ==> (#[trigger] param_names@[j]) is None,
            decreases param_types@.len() - i,
        {
            param_names.push(None);
            i += 1;
        }
        let r = Self::new(name, param_types, &param_names, ret, false, false);
        assert(opt_names_view(param_names@) =~= Seq::new(param_types@.len(), |i: int| None::<Seq<char>>));
        r
    }

    fn new(
        name: &str,
        param_types: &Vec<String>,
        param_names: &Vec<Option<String>>,
        ret: &String,
        is_action: bool,
        has_args: bool,
    ) -> (r: ReflectionInfo)
        ensures
            r@ == spec_reflection(
                name@,
                names_view(param_types@),
                opt_names_view(param_names@),
                ret@,
                is_action,
                has_args,
            ),
    {
        let ghost pn = opt_names_view(param_names@);
        let mut arg_idents: Vec<String> = Vec::new();
        let mut i: usize = 0;
        while i < param_names.len()
            invariant
                i <= param_names@.len(),
                pn == opt_names_view(param_names@),
                names_view(arg_idents@) =~= Seq::new(i as nat, |j: int| spec_arg_ident(j, pn[j])),
            decreases param_names@.len() - i,
        {
            let id = match &param_names[i] {
                Some(n) => string_clone(n),
                None => {
                    let mut s = owned("__arg_");
                    push_decimal(&mut s, i as u64);
                    s
                },
            };
            assert(id@ == spec_arg_ident(i as int, pn[i as int]));
            let ghost before = arg_idents@;
            arg_idents.push(id);
            assert(names_view(arg_idents@) =~= names_view(before).push(id@));
            i += 1;
        }
        let mut type_strings: Vec<String> = Vec::new();
        let mut k: usize = 0;
        while k < param_types.len()
            invariant
                k <= param_types@.len(),
                names_view(type_strings@) =~= names_view(param_types@).take(k as int),
            decreases param_types@.len() - k,
        {
            let ghost before = type_strings@;
            type_strings.push(string_clone(&param_types[k]));
            assert(names_view(type_strings@) =~= names_view(before).push(param_types@[k as int]@));
            k += 1;
        }
        assert(names_view(param_types@).take(param_types@.len() as int) =~= names_view(param_types@));
        ReflectionInfo {
            name: owned(name),
            arity: param_types.len(),
            arg_idents,
            type_strings,
            return_type_string: string_clone(ret),
            is_action,
            has_args,
        }
    }
}

// ── the synthesized bindings ────────────────────────────────────────

/// A node at the synthetic span.
pub open spec fn syn(node: SpecExpr) -> SExpr {
    SpecSpanned { node, span: spec_synthetic() }
}

/// `let name := value` at the synthetic span.
pub open spec fn spec_let(name: Seq<char>, value: SExpr) -> SExpr {
    syn(SpecExpr::Let { name, value: Box::new(value) })
}

/// The identifier `name` at the synthetic span.
pub open spec fn spec_ident(name: Seq<char>) -> SExpr {
    syn(SpecExpr::Ident { name })
}

/// `let _name := …; let _arity := …; let _types := […]; let _return_type
/// := …; let _is_action := Boolean::True/False`.
pub open spec fn spec_static_bindings(r: SpecReflection) -> Seq<SExpr> {
    seq![
        spec_let("_name"@, syn(SpecExpr::TextLit { text: r.name })),
        spec_let("_arity"@, syn(SpecExpr::IntLit { text: spec_decimal(r.arity) })),
        spec_let(
            "_types"@,
            syn(SpecExpr::ListLit { elements: Seq::new(r.type_strings.len(), |i: int| syn(SpecExpr::TextLit { text: r.type_strings[i] })) }),
        ),
        spec_let("_return_type"@, syn(SpecExpr::TextLit { text: r.return_type_string })),
        spec_let(
            "_is_action"@,
            syn(SpecExpr::VariantQual { enum_name: "Boolean"@, variant: if r.is_action { "True"@ } else { "False"@ } }),
        ),
    ]
}

/// `let _args := (a, b, …)`, or `let _args := ()` without parameter names.
pub open spec fn spec_args_binding(r: SpecReflection) -> SExpr {
    if !r.has_args {
        spec_let("_args"@, syn(SpecExpr::Unit))
    } else {
        spec_let(
            "_args"@,
            syn(SpecExpr::Tuple { elements: Seq::new(r.arg_idents.len(), |i: int| spec_ident(r.arg_idents[i])) }),
        )
    }
}

/// `let _return := __result`.
pub open spec fn spec_return_binding() -> SExpr {
    spec_let("_return"@, spec_ident("__result"@))
}

/// `let name := value` at the synthetic span.
fn let_binding(name: &str, value: Spanned<Expr>) -> (r: Spanned<Expr>)
    ensures
        sexpr_view(r) == spec_let(name@, sexpr_view(value)),
{
    Spanned::new(Expr::Let { name: owned(name), value: Box::new(value) }, Span::synthetic())
}

/// `node` at the synthetic span.
fn synthetic(node: Expr) -> (r: Spanned<Expr>)
    ensures
        sexpr_view(r) == syn(node@),
{
    Spanned::new(node, Span::synthetic())
}

/// The `let` bindings of the static reflection variables.
pub fn synthesize_static_bindings(refl: &ReflectionInfo) -> (r: Vec<Spanned<Expr>>)
    ensures
        sexprs_view(r@) == spec_static_bindings(refl@),
{
    let ghost rv = refl@;
    let mut arity_text = String::new();
    push_decimal(&mut arity_text, refl.arity as u64);
    assert(arity_text@ =~= spec_decimal(rv.arity));
    let mut types: Vec<Spanned<Expr>> = Vec::new();
    let mut i: usize = 0;
    while i < refl.type_strings.len()
        invariant
            i <= refl.type_strings@.len(),
            rv == refl@,
            sexprs_view(types@) =~= Seq::new(i as nat, |j: int| syn(SpecExpr::TextLit { text: rv.type_strings[j] })),
        decreases refl.type_strings@.len() - i,
    {
        let t = synthetic(Expr::TextLit { text: string_clone(&refl.type_strings[i]) });
        let ghost before = types@;
        types.push(t);
        assert(sexprs_view(types@) =~= sexprs_view(before).push(sexpr_view(t)));
        i += 1;
    }
    let ghost tv = sexprs_view(types@);
    let variant = if refl.is_action {
        owned("True")
    } else {
        owned("False")
    };
    let mut out: Vec<Spanned<Expr>> = Vec::new();
    out.push(let_binding("_name", synthetic(Expr::TextLit { text: string_clone(&refl.name) })));
    out.push(let_binding("_arity", synthetic(Expr::IntLit { text: arity_text })));
    let types_lit = synthetic(Expr::ListLit { elements: types });
    assert(sexpr_view(types_lit) == syn(SpecExpr::ListLit { elements: tv }));
    out.push(let_binding("_types", types_lit));
    out.push(
        let_binding("_return_type", synthetic(Expr::TextLit { text: string_clone(&refl.return_type_string) })),
    );
    out.push(
        let_binding("_is_action", synthetic(Expr::VariantQual { enum_name: owned("Boolean"), variant })),
    );
    assert(sexprs_view(out@) =~= spec_static_bindings(rv));
    out
}

/// The `let _args := …` binding.
pub fn synthesize_args_binding(refl: &ReflectionInfo) -> (r: Spanned<Expr>)
    ensures
        sexpr_view(r) == spec_args_binding(refl@),
{
    let ghost rv = refl@;
    if !refl.has_args {
        return let_binding("_args", synthetic(Expr::Unit));
    }
    let mut elements: Vec<Spanned<Expr>> = Vec::new();
    let mut i: usize = 0;
    while i < refl.arg_idents.len()
        invariant
            i <= refl.arg_idents@.len(),
            rv == refl@,
            sexprs_view(elements@) =~= Seq::new(i as nat, |j: int| spec_ident(rv.arg_idents[j])),
        decreases refl.arg_idents@.len() - i,
    {
        let t = synthetic(Expr::Ident { name: string_clone(&refl.arg_idents[i]) });
        let ghost before = elements@;
        elements.push(t);
        assert(sexprs_view(elements@) =~= sexprs_view(before).push(sexpr_view(t)));
        i += 1;
    }
    let ghost ev = sexprs_view(elements@);
    let tuple = synthetic(Expr::Tuple { elements });
    assert(sexpr_view(tuple) == syn(SpecExpr::Tuple { elements: ev }));
    let_binding("_args", tuple)
}

/// The `let _return := __result` binding.
pub fn synthesize_return_binding() -> (r: Spanned<Expr>)
    ensures
        sexpr_view(r) == spec_return_binding(),
{
    let_binding("_return", synthetic(Expr::Ident { name: owned("__result") }))
}


// ── directive bodies ────────────────────────────────────────────────

/// The expressions of a list of statements.
pub open spec fn spec_stmt_exprs(ss: Seq<SpecActionStmt>) -> Seq<SExpr> {
    Seq::new(ss.len(), |i: int| ss[i].expr)
}

/// The expressions of the statements of a directive's body, in order.
pub fn action_stmts_to_exprs(stmts: &Vec<ActionStmt>) -> (r: Vec<Spanned<Expr>>)
    ensures
        sexprs_view(r@) == spec_stmt_exprs(stmts_view(stmts@)),
{
    let mut out: Vec<Spanned<Expr>> = Vec::new();
    let mut i: usize = 0;
    while i < stmts.len()
        invariant
            i <= stmts@.len(),
            out@.len() == i,
            forall|j: int| 0 <= j < i ==> sexpr_view(#[trigger] out@[j]) == sexpr_view(stmts@[j].expr),
        decreases stmts@.len() - i,
    {
        out.push(clone_expr(&stmts[i].expr));
        i += 1;
    }
    assert(sexprs_view(out@) =~= spec_stmt_exprs(stmts_view(stmts@)));
    out
}

/// A directive's body as one expression: its only statement, or a block.
pub open spec fn spec_body_expr(ss: Seq<SpecActionStmt>) -> SExpr {
    if ss.len() == 1 {
        ss[0].expr
    } else {
        syn(SpecExpr::Block { stmts: spec_stmt_exprs(ss) })
    }
}

/// A directive's body as one expression.
pub fn directive_body_to_expr(stmts: &Vec<ActionStmt>) -> (r: Spanned<Expr>)
    ensures
        sexpr_view(r) == spec_body_expr(stmts_view(stmts@)),
{
    let mut exprs = action_stmts_to_exprs(stmts);
    let ghost ss = stmts_view(stmts@);
    let ghost ev = sexprs_view(exprs@);
    assert(ev.len() == exprs@.len());
    assert(ss.len() == stmts@.len());
    assert(spec_stmt_exprs(ss).len() == ss.len());
    if exprs.len() == 1 {
        let e = exprs.pop().unwrap();
        assert(sexpr_view(e) == ev[0]);
        assert(spec_stmt_exprs(ss)[0] == ss[0].expr);
        return e;
    }
    let b = synthetic(Expr::Block { stmts: exprs });
    assert(sexpr_view(b) == syn(SpecExpr::Block { stmts: ev }));
    b
}

// ── exit points ─────────────────────────────────────────────────────

/// The bindings that open an exit: `let __result := e`, the static
/// reflection variables, `_args` and `_return`.
pub open spec fn spec_exit_prelude(e: SExpr, r: SpecReflection) -> Seq<SExpr> {
    seq![spec_let("__result"@, e)] + spec_static_bindings(r) + seq![spec_args_binding(r), spec_return_binding()]
}

/// An exit value `e` wrapped by an `Exit` directive: the prelude, the
/// directive's statements, then `__result`.
pub open spec fn spec_exit_wrap(e: SExpr, d: SpecDirectiveDef, r: SpecReflection) -> SExpr {
    syn(SpecExpr::Block { stmts: spec_exit_prelude(e, r) + spec_stmt_exprs(d.body) + seq![spec_ident("__result"@)] })
}

/// An exit value `e` wrapped by a `Transform` directive: the prelude, then
/// the directive's statements, whose last gives the value.
pub open spec fn spec_transform_wrap(e: SExpr, d: SpecDirectiveDef, r: SpecReflection) -> SExpr {
    syn(SpecExpr::Block { stmts: spec_exit_prelude(e, r) + spec_stmt_exprs(d.body) })
}

/// An exit value wrapped by the directive whose hook is `h` (`Exit`, or
/// else `Transform`).
pub open spec fn spec_wrap(h: Hook, e: SExpr, d: SpecDirectiveDef, r: SpecReflection) -> SExpr {
    if h == Hook::Exit {
        spec_exit_wrap(e, d, r)
    } else {
        spec_transform_wrap(e, d, r)
    }
}

/// The views of two lists of expressions, one after the other.
proof fn lemma_sexprs_view_add(a: Seq<Spanned<Expr>>, b: Seq<Spanned<Expr>>)
    ensures
        sexprs_view(a + b) == sexprs_view(a) + sexprs_view(b),
{
    assert(sexprs_view(a + b) =~= sexprs_view(a) + sexprs_view(b));
}

/// Moves the expressions of `v` to the end of `out`.
fn push_all(out: &mut Vec<Spanned<Expr>>, v: Vec<Spanned<Expr>>)
    ensures
        sexprs_view(final(out)@) == sexprs_view(old(out)@) + sexprs_view(v@),
{
    let mut v = v;
    let ghost a = out@;
    let ghost b = v@;
    out.append(&mut v);
    proof {
        lemma_sexprs_view_add(a, b);
    }
}

/// The prelude of an exit, as a vector.
fn exit_prelude(expr: &Spanned<Expr>, refl: &ReflectionInfo) -> (r: Vec<Spanned<Expr>>)
    ensures
        sexprs_view(r@) == spec_exit_prelude(sexpr_view(*expr), refl@),
{
    let mut stmts: Vec<Spanned<Expr>> = Vec::new();
    let first = let_binding("__result", clone_expr(expr));
    stmts.push(first);
    assert(sexprs_view(stmts@) =~= seq![spec_let("__result"@, sexpr_view(*expr))]);
    push_all(&mut stmts, synthesize_static_bindings(refl));
    let ghost s1 = stmts@;
    let a = synthesize_args_binding(refl);
    stmts.push(a);
    assert(sexprs_view(stmts@) =~= sexprs_view(s1).push(sexpr_view(a)));
    let ghost s2 = stmts@;
    let rb = synthesize_return_binding();
    stmts.push(rb);
    assert(sexprs_view(stmts@) =~= sexprs_view(s2).push(sexpr_view(rb)));
    assert(sexprs_view(stmts@) =~= spec_exit_prelude(sexpr_view(*expr), refl@));
    stmts
}


/// Wraps an exit value as an `Exit` directive does.
pub fn wrap_exit_expr(expr: &Spanned<Expr>, def: &DirectiveDef, refl: &ReflectionInfo) -> (r: Spanned<Expr>)
    ensures
        sexpr_view(r) == spec_exit_wrap(sexpr_view(*expr), def@, refl@),
{
    let mut stmts = exit_prelude(expr, refl);
    push_all(&mut stmts, action_stmts_to_exprs(&def.body));
    let ghost s1 = stmts@;
    let last = synthetic(Expr::Ident { name: owned("__result") });
    stmts.push(last);
    assert(sexprs_view(stmts@) =~= sexprs_view(s1).push(sexpr_view(last)));
    let ghost sv = sexprs_view(stmts@);
    assert(sv =~= spec_exit_prelude(sexpr_view(*expr), refl@) + spec_stmt_exprs(def@.body) + seq![
        spec_ident("__result"@),
    ]);
    let b = synthetic(Expr::Block { stmts });
    assert(sexpr_view(b) == syn(SpecExpr::Block { stmts: sv }));
    b
}

/// Wraps an exit value as a `Transform` directive does.
pub fn wrap_transform_expr(expr: &Spanned<Expr>, def: &DirectiveDef, refl: &ReflectionInfo) -> (r: Spanned<Expr>)
    ensures
        sexpr_view(r) == spec_transform_wrap(sexpr_view(*expr), def@, refl@),
{
    let mut stmts = exit_prelude(expr, refl);
    push_all(&mut stmts, action_stmts_to_exprs(&def.body));
    let ghost sv = sexprs_view(stmts@);
    let b = synthetic(Expr::Block { stmts });
    assert(sexpr_view(b) == syn(SpecExpr::Block { stmts: sv }));
    b
}

/// Wraps an exit value as the directive of hook `hook` does: `Exit`, or
/// else `Transform`.
fn wrap_return(hook: Hook, expr: &Spanned<Expr>, def: &DirectiveDef, refl: &ReflectionInfo) -> (r: Spanned<Expr>)
    ensures
        sexpr_view(r) == spec_wrap(hook, sexpr_view(*expr), def@, refl@),
{
    if hook == Hook::Exit {
        wrap_exit_expr(expr, def, refl)
    } else {
        wrap_transform_expr(expr, def, refl)
    }
}

// ── returns inside a statement ──────────────────────────────────────

/// `e` with the value of every `return` wrapped: the search goes through
/// bindings, applications, matches, blocks, loops and `for` loops, and not
/// into lambdas or other nodes.
pub open spec fn spec_transform_returns(e: SExpr, h: Hook, d: SpecDirectiveDef, r: SpecReflection) -> SExpr
    decreases e, 1nat,
{
    SpecSpanned { node: spec_transform_node(e, h, d, r), span: e.span }
}

pub open spec fn spec_transform_node(e: SExpr, h: Hook, d: SpecDirectiveDef, r: SpecReflection) -> SpecExpr
    decreases e, 0nat,
{
    match e.node {
        SpecExpr::Return(inner) => SpecExpr::Return(Box::new(spec_wrap(h, *inner, d, r))),
        SpecExpr::Let { name, value } => SpecExpr::Let {
            name,
            value: Box::new(spec_transform_returns(*value, h, d, r)),
        },
        SpecExpr::Var { name, value } => SpecExpr::Var {
            name,
            value: Box::new(spec_transform_returns(*value, h, d, r)),
        },
        SpecExpr::Reassign { name, value } => SpecExpr::Reassign {
            name,
            value: Box::new(spec_transform_returns(*value, h, d, r)),
        },
        SpecExpr::Apply { callee, args } => SpecExpr::Apply {
            callee: Box::new(spec_transform_returns(*callee, h, d, r)),
            args: spec_transform_seq(args, h, d, r),
        },
        SpecExpr::Match { scrutinee, arms } => SpecExpr::Match {
            scrutinee: Box::new(spec_transform_returns(*scrutinee, h, d, r)),
            arms: spec_transform_arms(arms, h, d, r),
        },
        SpecExpr::Block { stmts } => SpecExpr::Block { stmts: spec_transform_seq(stmts, h, d, r) },
        SpecExpr::Loop { body } => SpecExpr::Loop { body: spec_transform_seq(body, h, d, r) },
        SpecExpr::ForIn { var_name, iterable, body } => SpecExpr::ForIn {
            var_name,
            iterable: Box::new(spec_transform_returns(*iterable, h, d, r)),
            body: spec_transform_seq(body, h, d, r),
        },
        _ => e.node,
    }
}

pub open spec fn spec_transform_seq(s: Seq<SExpr>, h: Hook, d: SpecDirectiveDef, r: SpecReflection) -> Seq<SExpr>
    decreases s, 2nat,
{
    Seq::new(s.len(), |i: int| if 0 <= i < s.len() { spec_transform_returns(s[i], h, d, r) } else { s[i] })
}

pub open spec fn spec_transform_arm(a: SpecMatchArm, h: Hook, d: SpecDirectiveDef, r: SpecReflection) -> SpecMatchArm
    decreases a, 2nat,
{
    SpecMatchArm {
        pattern: a.pattern,
        guard: match a.guard {
            Some(g) => Some(spec_transform_returns(g, h, d, r)),
            None => None,
        },
        body: spec_transform_returns(a.body, h, d, r),
    }
}

pub open spec fn spec_transform_arms(s: Seq<SpecMatchArm>, h: Hook, d: SpecDirectiveDef, r: SpecReflection) -> Seq<SpecMatchArm>
    decreases s, 3nat,
{
    Seq::new(s.len(), |i: int| if 0 <= i < s.len() { spec_transform_arm(s[i], h, d, r) } else { s[i] })
}

/// [`transform_spanned_expr`]'s node: every `return` inside `e` has its
/// value wrapped (see [`wrap_return`]).
pub fn transform_returns_in_expr(e: &Spanned<Expr>, hook: Hook, def: &DirectiveDef, refl: &ReflectionInfo) -> (r: Expr)
    ensures
        r@ == spec_transform_node(sexpr_view(*e), hook, def@, refl@),
    decreases e, 0nat,
{
    match &e.node {
        Expr::Return(inner) => Expr::Return(Box::new(wrap_return(hook, inner, def, refl))),
        Expr::Let { name, value } => Expr::Let {
            name: string_clone(name),
            value: Box::new(transform_spanned_expr(value, hook, def, refl)),
        },
        Expr::Var { name, value } => Expr::Var {
            name: string_clone(name),
            value: Box::new(transform_spanned_expr(value, hook, def, refl)),
        },
        Expr::Reassign { name, value } => Expr::Reassign {
            name: string_clone(name),
            value: Box::new(transform_spanned_expr(value, hook, def, refl)),
        },
        Expr::Apply { callee, args } => Expr::Apply {
            callee: Box::new(transform_spanned_expr(callee, hook, def, refl)),
            args: transform_vec(args, hook, def, refl),
        },
        Expr::Match { scrutinee, arms } => Expr::Match {
            scrutinee: Box::new(transform_spanned_expr(scrutinee, hook, def, refl)),
            arms: transform_arms(arms, hook, def, refl),
        },
        Expr::Block { stmts } => Expr::Block { stmts: transform_vec(stmts, hook, def, refl) },
        Expr::Loop { body } => Expr::Loop { body: transform_vec(body, hook, def, refl) },
        Expr::ForIn { var_name, iterable, body } => Expr::ForIn {
            var_name: string_clone(var_name),
            iterable: Box::new(transform_spanned_expr(iterable, hook, def, refl)),
            body: transform_vec(body, hook, def, refl),
        },
        _ => clone_expr(e).node,
    }
}

/// `e` with every `return` inside it wrapped, at its own span.
pub fn transform_spanned_expr(e: &Spanned<Expr>, hook: Hook, def: &DirectiveDef, refl: &ReflectionInfo) -> (r: Spanned<Expr>)
    ensures
        sexpr_view(r) == spec_transform_returns(sexpr_view(*e), hook, def@, refl@),
    decreases e, 1nat,
{
    Spanned { node: transform_returns_in_expr(e, hook, def, refl), span: e.span }
}

fn transform_vec(v: &Vec<Spanned<Expr>>, hook: Hook, def: &DirectiveDef, refl: &ReflectionInfo) -> (r: Vec<Spanned<Expr>>)
    ensures
        sexprs_view(r@) == spec_transform_seq(sexprs_view(v@), hook, def@, refl@),
    decreases v@, 2nat,
{
    let mut out: Vec<Spanned<Expr>> = Vec::new();
    let mut i: usize = 0;
    while i < v.len()
        invariant
            i <= v.len(),
            out@.len() == i,
            forall|j: int|
                0 <= j < i ==> sexpr_view(#[trigger] out@[j]) == spec_transform_returns(
                    sexpr_view(v@[j]),
                    hook,
                    def@,
                    refl@,
                ),
        decreases v.len() - i,
    {
        proof {
            assert(decreases_to!(v@ => v@[i as int]));
        }
        let t = transform_spanned_expr(&v[i], hook, def, refl);
        out.push(t);
        i += 1;
    }
    assert(sexprs_view(out@) =~= spec_transform_seq(sexprs_view(v@), hook, def@, refl@));
    out
}

fn transform_arms(v: &Vec<MatchArm>, hook: Hook, def: &DirectiveDef, refl: &ReflectionInfo) -> (r: Vec<MatchArm>)
    ensures
        arms_view(r@) == spec_transform_arms(arms_view(v@), hook, def@, refl@),
    decreases v@, 2nat,
{
    let mut out: Vec<MatchArm> = Vec::new();
    let mut i: usize = 0;
    while i < v.len()
        invariant
            i <= v.len(),
            out@.len() == i,
            forall|j: int|
                0 <= j < i ==> arm_view(#[trigger] out@[j]) == spec_transform_arm(arm_view(v@[j]), hook, def@, refl@),
        decreases v.len() - i,
    {
        proof {
            assert(decreases_to!(v@ => v@[i as int]));
            assert(decreases_to!(v@[i as int] => v@[i as int].guard));
            assert(decreases_to!(v@[i as int] => v@[i as int].body));
        }
        let guard = match &v[i].guard {
            Some(g) => {
                proof {
                    assert(decreases_to!(v@[i as int].guard => *g));
                }
                Some(transform_spanned_expr(g, hook, def, refl))
            },
            None => None,
        };
        let a = MatchArm {
            pattern: clone_opt_pattern(&v[i].pattern),
            guard,
            body: transform_spanned_expr(&v[i].body, hook, def, refl),
        };
        out.push(a);
        i += 1;
    }
    assert(arms_view(out@) =~= spec_transform_arms(arms_view(v@), hook, def@, refl@));
    out
}


// ── hooks on an action body ─────────────────────────────────────────

/// Expressions as statements followed by a semicolon.
pub open spec fn spec_semis(es: Seq<SExpr>) -> Seq<SpecActionStmt> {
    Seq::new(es.len(), |i: int| SpecActionStmt { expr: es[i], has_semicolon: true })
}

/// The reflection bindings that open an `Enter` or `ShortCircuit` hook.
pub open spec fn spec_entry_bindings(r: SpecReflection) -> Seq<SExpr> {
    spec_static_bindings(r).push(spec_args_binding(r))
}

/// `Enter`: the reflection bindings and the directive's statements, then
/// the body.
pub open spec fn spec_enter_action(body: Seq<SpecActionStmt>, d: SpecDirectiveDef, r: SpecReflection) -> Seq<
    SpecActionStmt,
> {
    spec_semis(spec_entry_bindings(r)) + d.body + body
}

/// A statement of a body under `Exit` or `Transform`: the body's value
/// (its last statement, without a semicolon) is wrapped, and so is every
/// `return` in the other statements.
pub open spec fn spec_exit_stmt(last: bool, s: SpecActionStmt, h: Hook, d: SpecDirectiveDef, r: SpecReflection) -> SpecActionStmt {
    if last && !s.has_semicolon {
        SpecActionStmt { expr: spec_wrap(h, s.expr, d, r), has_semicolon: false }
    } else {
        SpecActionStmt { expr: spec_transform_returns(s.expr, h, d, r), has_semicolon: s.has_semicolon }
    }
}

/// `Exit` or `Transform` on a body: each statement as [`spec_exit_stmt`]
/// says.
pub open spec fn spec_exits_action(body: Seq<SpecActionStmt>, h: Hook, d: SpecDirectiveDef, r: SpecReflection) -> Seq<
    SpecActionStmt,
> {
    Seq::new(body.len(), |i: int| spec_exit_stmt(i == body.len() - 1, body[i], h, d, r))
}

/// `match __decision { Optional::Some(r): r, Optional::None: original }`.
pub open spec fn spec_decision_match(original: SExpr) -> SExpr {
    syn(
        SpecExpr::Match {
            scrutinee: Box::new(spec_ident("__decision"@)),
            arms: seq![
                SpecMatchArm {
                    pattern: Some(
                        SpecSpanned {
                            node: SpecPattern::Variant {
                                enum_name: "Optional"@,
                                variant: "Some"@,
                                payload: Some(seq![SpecSpanned { node: SpecPattern::Ident("r"@), span: spec_synthetic() }]),
                            },
                            span: spec_synthetic(),
                        },
                    ),
                    guard: None,
                    body: spec_ident("r"@),
                },
                SpecMatchArm {
                    pattern: Some(
                        SpecSpanned {
                            node: SpecPattern::Variant { enum_name: "Optional"@, variant: "None"@, payload: None },
                            span: spec_synthetic(),
                        },
                    ),
                    guard: None,
                    body: original,
                },
            ],
        },
    )
}

/// `ShortCircuit`: the reflection bindings, `let __decision := <directive>`,
/// then the match that runs the original body on `Optional::None`.
pub open spec fn spec_shortcircuit_action(body: Seq<SpecActionStmt>, d: SpecDirectiveDef, r: SpecReflection) -> Seq<
    SpecActionStmt,
> {
    spec_semis(spec_entry_bindings(r).push(spec_let("__decision"@, spec_body_expr(d.body)))).push(
        SpecActionStmt { expr: spec_decision_match(spec_body_expr(body)), has_semicolon: false },
    )
}

/// A directive inlined into an action body, by its hook.
pub open spec fn spec_hook_action(body: Seq<SpecActionStmt>, d: SpecDirectiveDef, r: SpecReflection) -> Seq<SpecActionStmt> {
    match d.when {
        Hook::Enter => spec_enter_action(body, d, r),
        Hook::Exit => spec_exits_action(body, Hook::Exit, d, r),
        Hook::ShortCircuit => spec_shortcircuit_action(body, d, r),
        Hook::Transform => spec_exits_action(body, Hook::Transform, d, r),
    }
}

/// Appends expressions to `out` as statements followed by a semicolon.
fn push_semis(out: &mut Vec<ActionStmt>, v: &Vec<Spanned<Expr>>)
    ensures
        stmts_view(final(out)@) == stmts_view(old(out)@) + spec_semis(sexprs_view(v@)),
{
    let ghost o = stmts_view(out@);
    let ghost vv = sexprs_view(v@);
    let mut i: usize = 0;
    while i < v.len()
        invariant
            i <= v@.len(),
            vv == sexprs_view(v@),
            stmts_view(out@) == o + spec_semis(vv).take(i as int),
        decreases v@.len() - i,
    {
        let ghost before = out@;
        let st = ActionStmt { expr: clone_expr(&v[i]), has_semicolon: true };
        out.push(st);
        assert(stmts_view(out@) =~= o + spec_semis(vv).take(i + 1)) by {
            assert(stmts_view(out@) =~= stmts_view(before).push(stmt_view(st)));
        }
        i += 1;
    }
    assert(spec_semis(vv).take(v@.len() as int) =~= spec_semis(vv));
}

/// `Enter`: the reflection bindings and the directive's statements run
/// before the body.
pub fn apply_enter_to_action_body(body: Vec<ActionStmt>, def: &DirectiveDef, refl: &ReflectionInfo) -> (r: Vec<
    ActionStmt,
>)
    ensures
        stmts_view(r@) == spec_enter_action(stmts_view(body@), def@, refl@),
{
    let mut bindings = synthesize_static_bindings(refl);
    let ghost s0 = bindings@;
    let a = synthesize_args_binding(refl);
    bindings.push(a);
    assert(sexprs_view(bindings@) =~= spec_entry_bindings(refl@)) by {
        assert(sexprs_view(bindings@) =~= sexprs_view(s0).push(sexpr_view(a)));
    }
    let mut injected: Vec<ActionStmt> = Vec::new();
    push_semis(&mut injected, &bindings);
    assert(stmts_view(injected@) =~= spec_semis(spec_entry_bindings(refl@)));
    let mut d = clone_stmts(&def.body);
    let ghost i1 = injected@;
    let ghost dv = d@;
    injected.append(&mut d);
    assert(stmts_view(injected@) =~= stmts_view(i1) + stmts_view(dv)) by {
        assert(injected@ =~= i1 + dv);
    }
    let mut b = body;
    let ghost i2 = injected@;
    let ghost bv = b@;
    injected.append(&mut b);
    assert(stmts_view(injected@) =~= stmts_view(i2) + stmts_view(bv)) by {
        assert(injected@ =~= i2 + bv);
    }
    injected
}

/// `Exit` or `Transform` (`hook`): the body's value, and the value of every
/// `return` in it, is wrapped.
fn apply_exits_to_action_body(body: Vec<ActionStmt>, hook: Hook, def: &DirectiveDef, refl: &ReflectionInfo) -> (r: Vec<
    ActionStmt,
>)
    ensures
        stmts_view(r@) == spec_exits_action(stmts_view(body@), hook, def@, refl@),
{
    let ghost bv = stmts_view(body@);
    if body.len() == 0 {
        assert(stmts_view(body@) =~= spec_exits_action(bv, hook, def@, refl@));
        return body;
    }
    let total = body.len();
    let mut result: Vec<ActionStmt> = Vec::new();
    let mut i: usize = 0;
    while i < total
        invariant
            i <= total == body@.len(),
            bv == stmts_view(body@),
            result@.len() == i,
            forall|j: int|
                0 <= j < i ==> stmt_view(#[trigger] result@[j]) == spec_exit_stmt(j == total - 1, bv[j], hook, def@, refl@),
        decreases total - i,
    {
        let stmt = &body[i];
        let is_last = i == total - 1;
        let out = if is_last && !stmt.has_semicolon {
            ActionStmt { expr: wrap_return(hook, &stmt.expr, def, refl), has_semicolon: false }
        } else {
            match &stmt.expr.node {
                Expr::Return(inner) => ActionStmt {
                    expr: Spanned {
                        node: Expr::Return(Box::new(wrap_return(hook, inner, def, refl))),
                        span: stmt.expr.span,
                    },
                    has_semicolon: stmt.has_semicolon,
                },
                _ => ActionStmt {
                    expr: transform_spanned_expr(&stmt.expr, hook, def, refl),
                    has_semicolon: stmt.has_semicolon,
                },
            }
        };
        assert(stmt_view(out) == spec_exit_stmt(i == total - 1, bv[i as int], hook, def@, refl@));
        result.push(out);
        i += 1;
    }
    assert(stmts_view(result@) =~= spec_exits_action(bv, hook, def@, refl@));
    result
}

/// `Exit`: every exit point binds its value to `__result`, runs the
/// directive's statements and gives `__result`.
pub fn apply_exit_to_action_body(body: Vec<ActionStmt>, def: &DirectiveDef, refl: &ReflectionInfo) -> (r: Vec<
    ActionStmt,
>)
    ensures
        stmts_view(r@) == spec_exits_action(stmts_view(body@), Hook::Exit, def@, refl@),
{
    apply_exits_to_action_body(body, Hook::Exit, def, refl)
}

/// `Transform`: every exit point binds its value to `__result` and gives
/// the value of the directive's last statement.
pub fn apply_transform_to_action_body(body: Vec<ActionStmt>, def: &DirectiveDef, refl: &ReflectionInfo) -> (r: Vec<
    ActionStmt,
>)
    ensures
        stmts_view(r@) == spec_exits_action(stmts_view(body@), Hook::Transform, def@, refl@),
{
    apply_exits_to_action_body(body, Hook::Transform, def, refl)
}


/// `match __decision { Optional::Some(r): r, Optional::None: original }`.
fn decision_match(original: Spanned<Expr>) -> (r: Spanned<Expr>)
    ensures
        sexpr_view(r) == spec_decision_match(sexpr_view(original)),
{
    let ghost ov = sexpr_view(original);
    let r_pat = Spanned::new(Pattern::Ident(owned("r")), Span::synthetic());
    let mut payload: Vec<Spanned<Pattern>> = Vec::new();
    payload.push(r_pat);
    assert(spatterns_view(payload@) =~= seq![SpecSpanned { node: SpecPattern::Ident("r"@), span: spec_synthetic() }]);
    let some_pat = Spanned::new(
        Pattern::Variant { enum_name: owned("Optional"), variant: owned("Some"), payload: Some(payload) },
        Span::synthetic(),
    );
    let none_pat = Spanned::new(
        Pattern::Variant { enum_name: owned("Optional"), variant: owned("None"), payload: None },
        Span::synthetic(),
    );
    let some_arm = MatchArm { pattern: Some(some_pat), guard: None, body: synthetic(Expr::Ident { name: owned("r") }) };
    let none_arm = MatchArm { pattern: Some(none_pat), guard: None, body: original };
    let ghost a0 = arm_view(some_arm);
    let ghost a1 = arm_view(none_arm);
    let mut arms: Vec<MatchArm> = Vec::new();
    arms.push(some_arm);
    arms.push(none_arm);
    assert(arms_view(arms@) =~= seq![a0, a1]);
    let m = synthetic(
        Expr::Match { scrutinee: Box::new(synthetic(Expr::Ident { name: owned("__decision") })), arms },
    );
    assert(sexpr_view(m) == spec_decision_match(ov));
    m
}

/// `ShortCircuit`: the directive's value, bound to `__decision`, is the
/// action's value unless it is `Optional::None`, in which case the original
/// body runs.
pub fn apply_shortcircuit_to_action_body(body: Vec<ActionStmt>, def: &DirectiveDef, refl: &ReflectionInfo) -> (r: Vec<
    ActionStmt,
>)
    ensures
        stmts_view(r@) == spec_shortcircuit_action(stmts_view(body@), def@, refl@),
{
    let mut bindings = synthesize_static_bindings(refl);
    let ghost s0 = bindings@;
    let a = synthesize_args_binding(refl);
    bindings.push(a);
    let ghost s1 = bindings@;
    let decision = let_binding("__decision", directive_body_to_expr(&def.body));
    bindings.push(decision);
    assert(sexprs_view(bindings@) =~= spec_entry_bindings(refl@).push(spec_let("__decision"@, spec_body_expr(def@.body)))) by {
        assert(sexprs_view(s1) =~= sexprs_view(s0).push(sexpr_view(a)));
        assert(sexprs_view(bindings@) =~= sexprs_view(s1).push(sexpr_view(decision)));
    }
    let mut injected: Vec<ActionStmt> = Vec::new();
    push_semis(&mut injected, &bindings);
    let original = directive_body_to_expr(&body);
    let last = ActionStmt { expr: decision_match(original), has_semicolon: false };
    let ghost i1 = injected@;
    injected.push(last);
    assert(stmts_view(injected@) =~= stmts_view(i1).push(stmt_view(last)));
    injected
}

/// Inlines one directive into an action body, by its hook.
pub fn apply_hook_to_action_body(body: Vec<ActionStmt>, def: &DirectiveDef, refl: &ReflectionInfo) -> (r: Vec<
    ActionStmt,
>)
    ensures
        stmts_view(r@) == spec_hook_action(stmts_view(body@), def@, refl@),
{
    match def.key.when {
        Hook::Enter => apply_enter_to_action_body(body, def, refl),
        Hook::Exit => apply_exit_to_action_body(body, def, refl),
        Hook::ShortCircuit => apply_shortcircuit_to_action_body(body, def, refl),
        Hook::Transform => apply_transform_to_action_body(body, def, refl),
    }
}


// ── the registry ────────────────────────────────────────────────────

/// The directive definitions of a module, in the order of their
/// declaration; one name may have several (one per target and hook).
pub struct DirectiveRegistry {
    defs: Vec<DirectiveDef>,
}

impl View for DirectiveRegistry {
    type V = Seq<SpecDirectiveDef>;

    closed spec fn view(&self) -> Seq<SpecDirectiveDef> {
        Seq::new(self.defs@.len(), |i: int| self.defs@[i]@)
    }
}

/// The views of a list of directive definitions.
pub open spec fn defs_view(s: Seq<&DirectiveDef>) -> Seq<SpecDirectiveDef> {
    Seq::new(s.len(), |i: int| s[i]@)
}

/// The definitions named `name`, in order.
pub open spec fn spec_lookup(defs: Seq<SpecDirectiveDef>, name: Seq<char>) -> Seq<SpecDirectiveDef>
    decreases defs.len(),
{
    if defs.len() == 0 {
        Seq::empty()
    } else {
        let prev = spec_lookup(defs.drop_last(), name);
        if defs.last().name == name {
            prev.push(defs.last())
        } else {
            prev
        }
    }
}

impl DirectiveRegistry {
    pub fn new() -> (r: DirectiveRegistry)
        ensures
            r@ == Seq::<SpecDirectiveDef>::empty(),
    {
        let r = DirectiveRegistry { defs: Vec::new() };
        assert(r@ =~= Seq::<SpecDirectiveDef>::empty());
        r
    }

    /// Adds a definition after the others.
    pub fn register(&mut self, def: DirectiveDef)
        ensures
            final(self)@ == old(self)@.push(def@),
    {
        let ghost dv = def@;
        self.defs.push(def);
        assert(self@ =~= old(self)@.push(dv));
    }

    /// The definitions named `name`, in the order of their declaration.
    pub fn lookup_by_name(&self, name: &String) -> (r: Vec<&DirectiveDef>)
        ensures
            defs_view(r@) == spec_lookup(self@, name@),
    {
        let ghost all = self@;
        let mut out: Vec<&DirectiveDef> = Vec::new();
        let mut i: usize = 0;
        while i < self.defs.len()
            invariant
                i <= self.defs@.len(),
                all == self@,
                defs_view(out@) == spec_lookup(all.take(i as int), name@),
            decreases self.defs@.len() - i,
        {
            let d = &self.defs[i];
            let ghost before = out@;
            proof {
                assert(all.take(i + 1).drop_last() =~= all.take(i as int));
                assert(all.take(i + 1).last() == d@);
            }
            if d.key.name == *name {
                out.push(d);
                assert(defs_view(out@) =~= defs_view(before).push(d@));
            }
            i += 1;
        }
        assert(all.take(self.defs@.len() as int) =~= all);
        out
    }
}

// ── directives on an action ─────────────────────────────────────────

/// A definition that may decorate an action.
pub open spec fn for_action(d: SpecDirectiveDef) -> bool {
    d.on == Target::Action || d.on == Target::Any
}

/// The definitions `defs`, those that may decorate an action, inlined in
/// order into `body`.
pub open spec fn spec_defs_action(body: Seq<SpecActionStmt>, defs: Seq<SpecDirectiveDef>, r: SpecReflection) -> Seq<
    SpecActionStmt,
>
    decreases defs.len(),
{
    if defs.len() == 0 {
        body
    } else {
        let prev = spec_defs_action(body, defs.drop_last(), r);
        if for_action(defs.last()) {
            spec_hook_action(prev, defs.last(), r)
        } else {
            prev
        }
    }
}

/// The directives named `names` inlined into an action body: the last name
/// first, so that the first one wraps all the others.
pub open spec fn spec_directives_action(
    body: Seq<SpecActionStmt>,
    names: Seq<Seq<char>>,
    r: SpecReflection,
    reg: Seq<SpecDirectiveDef>,
) -> Seq<SpecActionStmt>
    decreases names.len(),
{
    if names.len() == 0 {
        body
    } else {
        spec_directives_action(spec_defs_action(body, spec_lookup(reg, names.last()), r), names.drop_last(), r, reg)
    }
}

/// Inlines the directives named `custom_names` into an action body; the
/// first name is the outermost.
pub fn apply_directives_to_action_body(
    body: Vec<ActionStmt>,
    custom_names: &Vec<String>,
    refl: &ReflectionInfo,
    registry: &DirectiveRegistry,
) -> (r: Vec<ActionStmt>)
    ensures
        stmts_view(r@) == spec_directives_action(stmts_view(body@), names_view(custom_names@), refl@, registry@),
{
    let ghost names = names_view(custom_names@);
    let ghost target = spec_directives_action(stmts_view(body@), names, refl@, registry@);
    let mut current = body;
    let mut k = custom_names.len();
    assert(names.take(k as int) =~= names);
    while k > 0
        invariant
            k <= names.len(),
            names == names_view(custom_names@),
            spec_directives_action(stmts_view(current@), names.take(k as int), refl@, registry@) == target,
        decreases k,
    {
        k -= 1;
        let defs = registry.lookup_by_name(&custom_names[k]);
        let ghost dv = defs_view(defs@);
        let ghost c0 = stmts_view(current@);
        proof {
            assert(names.take(k + 1).drop_last() =~= names.take(k as int));
            assert(names.take(k + 1).last() == names[k as int]);
            assert(dv.take(0) =~= Seq::<SpecDirectiveDef>::empty());
        }
        let mut j: usize = 0;
        while j < defs.len()
            invariant
                j <= defs@.len(),
                dv == defs_view(defs@),
                stmts_view(current@) == spec_defs_action(c0, dv.take(j as int), refl@),
            decreases defs@.len() - j,
        {
            let d = defs[j];
            proof {
                assert(dv.take(j + 1).drop_last() =~= dv.take(j as int));
                assert(dv.take(j + 1).last() == d@);
            }
            if d.key.on == Target::Action || d.key.on == Target::Any {
                current = apply_hook_to_action_body(current, d, refl);
            }
            j += 1;
        }
        assert(dv.take(defs@.len() as int) =~= dv);
    }
    current
}


// ── directives on a pure function ───────────────────────────────────

/// A clause of a pure function: its parameter patterns, body, guarded
/// alternatives and `with` bindings.
#[derive(Debug)]
pub struct LambdaClause {
    pub patterns: Vec<Spanned<Pattern>>,
    pub body: Spanned<Expr>,
    pub guards: Vec<GuardClause>,
    pub with_bindings: Vec<WithBinding>,
}

pub struct SpecLambdaClause {
    pub patterns: Seq<SpecSpanned<SpecPattern>>,
    pub body: SExpr,
    pub guards: Seq<SpecGuardClause>,
    pub with_bindings: Seq<SpecWithBinding>,
}

impl View for LambdaClause {
    type V = SpecLambdaClause;

    open spec fn view(&self) -> SpecLambdaClause {
        SpecLambdaClause {
            patterns: spatterns_view(self.patterns@),
            body: sexpr_view(self.body),
            guards: guards_view(self.guards@),
            with_bindings: withs_view(self.with_bindings@),
        }
    }
}

/// `Enter` on a function body: a block of the reflection bindings, the
/// directive's statements and the body.
pub open spec fn spec_enter_lambda(body: SExpr, d: SpecDirectiveDef, r: SpecReflection) -> SExpr {
    syn(SpecExpr::Block { stmts: spec_entry_bindings(r) + spec_stmt_exprs(d.body) + seq![body] })
}

/// A directive inlined into a function body, by its hook: `Exit` wraps the
/// body as it wraps an action's exit value; `ShortCircuit` and `Transform`
/// do not apply to functions and leave the body as it is.
pub open spec fn spec_hook_lambda(body: SExpr, d: SpecDirectiveDef, r: SpecReflection) -> SExpr {
    match d.when {
        Hook::Enter => spec_enter_lambda(body, d, r),
        Hook::Exit => spec_exit_wrap(body, d, r),
        _ => body,
    }
}

/// A definition that may decorate a function.
pub open spec fn for_function(d: SpecDirectiveDef) -> bool {
    d.on == Target::Function || d.on == Target::Any
}

pub open spec fn spec_defs_lambda(body: SExpr, defs: Seq<SpecDirectiveDef>, r: SpecReflection) -> SExpr
    decreases defs.len(),
{
    if defs.len() == 0 {
        body
    } else {
        let prev = spec_defs_lambda(body, defs.drop_last(), r);
        if for_function(defs.last()) {
            spec_hook_lambda(prev, defs.last(), r)
        } else {
            prev
        }
    }
}

/// The directives named `names` inlined into a function body, the last
/// name first.
pub open spec fn spec_directives_lambda(body: SExpr, names: Seq<Seq<char>>, r: SpecReflection, reg: Seq<SpecDirectiveDef>) -> SExpr
    decreases names.len(),
{
    if names.len() == 0 {
        body
    } else {
        spec_directives_lambda(spec_defs_lambda(body, spec_lookup(reg, names.last()), r), names.drop_last(), r, reg)
    }
}

/// `Enter` on a function body.
pub fn apply_enter_to_lambda_body(body: Spanned<Expr>, def: &DirectiveDef, refl: &ReflectionInfo) -> (r: Spanned<Expr>)
    ensures
        sexpr_view(r) == spec_enter_lambda(sexpr_view(body), def@, refl@),
{
    let ghost bv = sexpr_view(body);
    let mut stmts = synthesize_static_bindings(refl);
    let ghost s0 = stmts@;
    let a = synthesize_args_binding(refl);
    stmts.push(a);
    assert(sexprs_view(stmts@) =~= sexprs_view(s0).push(sexpr_view(a)));
    push_all(&mut stmts, action_stmts_to_exprs(&def.body));
    let ghost s1 = stmts@;
    stmts.push(body);
    assert(sexprs_view(stmts@) =~= sexprs_view(s1).push(bv));
    let ghost sv = sexprs_view(stmts@);
    assert(sv =~= spec_entry_bindings(refl@) + spec_stmt_exprs(def@.body) + seq![bv]);
    let b = synthetic(Expr::Block { stmts });
    assert(sexpr_view(b) == syn(SpecExpr::Block { stmts: sv }));
    b
}

/// `Exit` on a function body: the body's value is bound to `__result`, the
/// directive's statements run, and `__result` is the value.
pub fn apply_exit_to_lambda_body(body: Spanned<Expr>, def: &DirectiveDef, refl: &ReflectionInfo) -> (r: Spanned<Expr>)
    ensures
        sexpr_view(r) == spec_exit_wrap(sexpr_view(body), def@, refl@),
{
    wrap_exit_expr(&body, def, refl)
}

/// Inlines one directive into a function body, by its hook.
pub fn apply_hook_to_lambda_body(body: Spanned<Expr>, def: &DirectiveDef, refl: &ReflectionInfo) -> (r: Spanned<Expr>)
    ensures
        sexpr_view(r) == spec_hook_lambda(sexpr_view(body), def@, refl@),
{
    match def.key.when {
        Hook::Enter => apply_enter_to_lambda_body(body, def, refl),
        Hook::Exit => apply_exit_to_lambda_body(body, def, refl),
        Hook::ShortCircuit | Hook::Transform => body,
    }
}

/// Inlines the directives named `custom_names` into the body of a function
/// clause; its patterns, guards and `with` bindings are kept.
pub fn apply_directives_to_lambda_clause(
    clause: LambdaClause,
    custom_names: &Vec<String>,
    refl: &ReflectionInfo,
    registry: &DirectiveRegistry,
) -> (r: LambdaClause)
    ensures
        r@ == (SpecLambdaClause {
            body: spec_directives_lambda(clause@.body, names_view(custom_names@), refl@, registry@),
            ..clause@
        }),
{
    let ghost names = names_view(custom_names@);
    let ghost target = spec_directives_lambda(clause@.body, names, refl@, registry@);
    let LambdaClause { patterns, body, guards, with_bindings } = clause;
    let mut current = body;
    let mut k = custom_names.len();
    assert(names.take(k as int) =~= names);
    while k > 0
        invariant
            k <= names.len(),
            names == names_view(custom_names@),
            spec_directives_lambda(sexpr_view(current), names.take(k as int), refl@, registry@) == target,
        decreases k,
    {
        k -= 1;
        let defs = registry.lookup_by_name(&custom_names[k]);
        let ghost dv = defs_view(defs@);
        let ghost c0 = sexpr_view(current);
        proof {
            assert(names.take(k + 1).drop_last() =~= names.take(k as int));
            assert(names.take(k + 1).last() == names[k as int]);
            assert(dv.take(0) =~= Seq::<SpecDirectiveDef>::empty());
        }
        let mut j: usize = 0;
        while j < defs.len()
            invariant
                j <= defs@.len(),
                dv == defs_view(defs@),
                sexpr_view(current) == spec_defs_lambda(c0, dv.take(j as int), refl@),
            decreases defs@.len() - j,
        {
            let d = defs[j];
            proof {
                assert(dv.take(j + 1).drop_last() =~= dv.take(j as int));
                assert(dv.take(j + 1).last() == d@);
            }
            if d.key.on == Target::Function || d.key.on == Target::Any {
                current = apply_hook_to_lambda_body(current, d, refl);
            }
            j += 1;
        }
        assert(dv.take(defs@.len() as int) =~= dv);
    }
    LambdaClause { patterns, body: current, guards, with_bindings }
}


// ── the pass over a module ──────────────────────────────────────────

/// An action as resolution leaves it, with what this pass reads: its
/// signature (types as their text), the directives that decorate it, in
/// order, and its body.
#[derive(Debug)]
pub struct ActionDef {
    pub name: String,
    pub param_types: Vec<String>,
    pub param_names: Vec<Option<String>>,
    pub return_type: String,
    pub custom_directives: Vec<String>,
    pub body: Vec<ActionStmt>,
}

pub struct SpecActionDef {
    pub name: Seq<char>,
    pub param_types: Seq<Seq<char>>,
    pub param_names: Seq<Option<Seq<char>>>,
    pub return_type: Seq<char>,
    pub custom_directives: Seq<Seq<char>>,
    pub body: Seq<SpecActionStmt>,
}

impl View for ActionDef {
    type V = SpecActionDef;

    open spec fn view(&self) -> SpecActionDef {
        SpecActionDef {
            name: self.name@,
            param_types: names_view(self.param_types@),
            param_names: opt_names_view(self.param_names@),
            return_type: self.return_type@,
            custom_directives: names_view(self.custom_directives@),
            body: stmts_view(self.body@),
        }
    }
}

/// A pure function as resolution leaves it, with what this pass reads.
#[derive(Debug)]
pub struct FunctionDef {
    pub name: String,
    pub param_types: Vec<String>,
    pub return_type: String,
    pub custom_directives: Vec<String>,
    pub clauses: Vec<Spanned<LambdaClause>>,
}

pub struct SpecFunctionDef {
    pub name: Seq<char>,
    pub param_types: Seq<Seq<char>>,
    pub return_type: Seq<char>,
    pub custom_directives: Seq<Seq<char>>,
    pub clauses: Seq<SpecSpanned<SpecLambdaClause>>,
}

pub open spec fn clauses_view(cs: Seq<Spanned<LambdaClause>>) -> Seq<SpecSpanned<SpecLambdaClause>> {
    Seq::new(cs.len(), |i: int| SpecSpanned { node: cs[i].node@, span: cs[i].span })
}

impl View for FunctionDef {
    type V = SpecFunctionDef;

    open spec fn view(&self) -> SpecFunctionDef {
        SpecFunctionDef {
            name: self.name@,
            param_types: names_view(self.param_types@),
            return_type: self.return_type@,
            custom_directives: names_view(self.custom_directives@),
            clauses: clauses_view(self.clauses@),
        }
    }
}

/// What this pass reads and rewrites of a resolved module.
pub struct ResolvedModule {
    pub actions: Vec<ActionDef>,
    pub functions: Vec<FunctionDef>,
    pub directive_registry: DirectiveRegistry,
}

/// An action after the pass: its directives inlined into its body.
pub open spec fn spec_desugar_action(a: SpecActionDef, reg: Seq<SpecDirectiveDef>) -> SpecActionDef {
    if a.custom_directives.len() == 0 {
        a
    } else {
        SpecActionDef {
            body: spec_directives_action(
                a.body,
                a.custom_directives,
                spec_reflection(a.name, a.param_types, a.param_names, a.return_type, true, true),
                reg,
            ),
            ..a
        }
    }
}

/// The reflection of a pure function.
pub open spec fn spec_function_reflection(f: SpecFunctionDef) -> SpecReflection {
    spec_reflection(
        f.name,
        f.param_types,
        Seq::new(f.param_types.len(), |i: int| None::<Seq<char>>),
        f.return_type,
        false,
        false,
    )
}

/// A function after the pass: its directives inlined into the body of each
/// clause.
pub open spec fn spec_desugar_function(f: SpecFunctionDef, reg: Seq<SpecDirectiveDef>) -> SpecFunctionDef {
    if f.custom_directives.len() == 0 {
        f
    } else {
        SpecFunctionDef {
            clauses: Seq::new(
                f.clauses.len(),
                |i: int|
                    SpecSpanned {
                        node: SpecLambdaClause {
                            body: spec_directives_lambda(
                                f.clauses[i].node.body,
                                f.custom_directives,
                                spec_function_reflection(f),
                                reg,
                            ),
                            ..f.clauses[i].node
                        },
                        span: f.clauses[i].span,
                    },
            ),
            ..f
        }
    }
}

/// Inlines the directives of one action.
fn desugar_action(a: ActionDef, registry: &DirectiveRegistry) -> (r: ActionDef)
    ensures
        r@ == spec_desugar_action(a@, registry@),
{
    if a.custom_directives.len() == 0 {
        return a;
    }
    let refl = ReflectionInfo::for_action(a.name.as_str(), &a.param_types, &a.param_names, &a.return_type);
    let ActionDef { name, param_types, param_names, return_type, custom_directives, body } = a;
    let body = apply_directives_to_action_body(body, &custom_directives, &refl, registry);
    ActionDef { name, param_types, param_names, return_type, custom_directives, body }
}

/// Inlines the directives of one function into each of its clauses.
fn desugar_function(f: FunctionDef, registry: &DirectiveRegistry) -> (r: FunctionDef)
    ensures
        r@ == spec_desugar_function(f@, registry@),
{
    if f.custom_directives.len() == 0 {
        return f;
    }
    let refl = ReflectionInfo::for_function(f.name.as_str(), &f.param_types, &f.return_type);
    let ghost fv = f@;
    let FunctionDef { name, param_types, return_type, custom_directives, clauses } = f;
    let mut rest = clauses;
    let ghost all = rest@;
    let mut out: Vec<Spanned<LambdaClause>> = Vec::new();
    while rest.len() > 0
        invariant
            rest@ == all.skip(out@.len() as int),
            out@.len() <= all.len(),
            fv.clauses == clauses_view(all),
            fv.custom_directives == names_view(custom_directives@),
            refl@ == spec_function_reflection(fv),
            forall|j: int|
                0 <= j < out@.len() ==> (SpecSpanned { node: (#[trigger] out@[j]).node@, span: out@[j].span }) == (
                SpecSpanned {
                    node: SpecLambdaClause {
                        body: spec_directives_lambda(
                            fv.clauses[j].node.body,
                            fv.custom_directives,
                            spec_function_reflection(fv),
                            registry@,
                        ),
                        ..fv.clauses[j].node
                    },
                    span: fv.clauses[j].span,
                }),
        decreases rest@.len(),
    {
        let ghost before = rest@;
        let c = rest.remove(0);
        assert(rest@ =~= all.skip(out@.len() as int + 1)) by {
            assert(before.remove(0) =~= before.skip(1));
        }
        assert(c == all[out@.len() as int]);
        let Spanned { node, span } = c;
        let node = apply_directives_to_lambda_clause(node, &custom_directives, &refl, registry);
        out.push(Spanned { node, span });
    }
    let r = FunctionDef { name, param_types, return_type, custom_directives, clauses: out };
    assert(r@.clauses =~= spec_desugar_function(fv, registry@).clauses);
    r
}

/// Inlines the custom directives of a module's actions into their bodies,
/// and those of its functions into their clauses; items without custom
/// directives are left as they are.
pub fn desugar_directives(resolved: &mut ResolvedModule)
    ensures
        final(resolved).directive_registry@ == old(resolved).directive_registry@,
        final(resolved).actions@.len() == old(resolved).actions@.len(),
        forall|i: int|
            0 <= i < old(resolved).actions@.len() ==> (#[trigger] final(resolved).actions@[i])@ == spec_desugar_action(
                old(resolved).actions@[i]@,
                old(resolved).directive_registry@,
            ),
        final(resolved).functions@.len() == old(resolved).functions@.len(),
        forall|i: int|
            0 <= i < old(resolved).functions@.len() ==> (#[trigger] final(resolved).functions@[i])@
                == spec_desugar_function(old(resolved).functions@[i]@, old(resolved).directive_registry@),
{
    let ghost reg = resolved.directive_registry@;
    let mut actions: Vec<ActionDef> = Vec::new();
    std::mem::swap(&mut actions, &mut resolved.actions);
    let ghost all = actions@;
    let mut done: Vec<ActionDef> = Vec::new();
    while actions.len() > 0
        invariant
            actions@ == all.skip(done@.len() as int),
            done@.len() <= all.len(),
            resolved.directive_registry@ == reg,
            forall|j: int| 0 <= j < done@.len() ==> (#[trigger] done@[j])@ == spec_desugar_action(all[j]@, reg),
        decreases actions@.len(),
    {
        let ghost before = actions@;
        let a = actions.remove(0);
        assert(actions@ =~= all.skip(done@.len() as int + 1)) by {
            assert(before.remove(0) =~= before.skip(1));
        }
        assert(a == all[done@.len() as int]);
        done.push(desugar_action(a, &resolved.directive_registry));
    }
    resolved.actions = done;
    let mut functions: Vec<FunctionDef> = Vec::new();
    std::mem::swap(&mut functions, &mut resolved.functions);
    let ghost allf = functions@;
    let mut donef: Vec<FunctionDef> = Vec::new();
    while functions.len() > 0
        invariant
            functions@ == allf.skip(donef@.len() as int),
            donef@.len() <= allf.len(),
            resolved.directive_registry@ == reg,
            forall|j: int| 0 <= j < donef@.len() ==> (#[trigger] donef@[j])@ == spec_desugar_function(allf[j]@, reg),
        decreases functions@.len(),
    {
        let ghost before = functions@;
        let f = functions.remove(0);
        assert(functions@ =~= allf.skip(donef@.len() as int + 1)) by {
            assert(before.remove(0) =~= before.skip(1));
        }
        assert(f == allf[donef@.len() as int]);
        donef.push(desugar_function(f, &resolved.directive_registry));
    }
    resolved.functions = donef;
}

} // verus!
