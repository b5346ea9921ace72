//! The typed syntax tree that inference produces (the part of it that the
//! analyses below read), with the analyses: whether a loop body can leave
//! its loop, and which names a pattern binds.

use vstd::prelude::*;

use crate::ast::{Span, Spanned};
use crate::subst::Substitutions;
use crate::text::{contains_name, is_named, names_view, owned};
use crate::ty::{string_clone, ty_clone, PrimTy, SpecTy, Ty};
use crate::tyops::EscapeTarget;

verus! {

/// A pattern after inference: each bound name carries its type.
pub enum TypedPattern {
    Ident { name: String, ty: Ty },
    Wildcard,
    Literal { value: String },
    Variant { variant: String, sub_patterns: Option<Vec<Spanned<TypedPattern>>> },
    Tuple { elements: Vec<Spanned<TypedPattern>> },
    Cons { head: Box<Spanned<TypedPattern>>, tail: Box<Spanned<TypedPattern>> },
    Nil,
}

/// A typed expression: what it is, its type, its source span, whether it
/// stands in tail position, and the arena its value escapes to.
pub struct TypedExpr {
    pub kind: TypedExprKind,
    pub ty: Ty,
    pub span: Span,
    pub tail_pos: bool,
    pub escape: EscapeTarget,
}

/// A guarded alternative of a typed lambda clause; `condition` is `None`
/// for `otherwise`.
pub struct TypedGuardClause {
    pub condition: Option<Spanned<TypedExpr>>,
    pub body: Spanned<TypedExpr>,
}

/// A clause of a typed function: its parameter patterns, its body and its
/// guarded alternatives.
pub struct TypedLambdaClause {
    pub patterns: Vec<Spanned<TypedPattern>>,
    pub body: Spanned<TypedExpr>,
    pub guards: Vec<TypedGuardClause>,
}

/// A typed function: its name, parameter types, return type and clauses.
pub struct TypedFunction {
    pub name: String,
    pub param_types: Vec<Ty>,
    pub ret_ty: Ty,
    pub clauses: Vec<TypedLambdaClause>,
}

/// An arm of a typed `match`.
pub struct TypedMatchArm {
    pub pattern: Spanned<TypedPattern>,
    pub guard: Option<Spanned<TypedExpr>>,
    pub body: Spanned<TypedExpr>,
}

/// The kinds of typed expression.
pub enum TypedExprKind {
    Unit,
    IntLit(i64),
    /// A floating-point literal, held as the text it was written with.
    FloatLit(String),
    TextLit(String),
    Ident { name: String },
    Break,
    Continue,
    Apply { callee: Box<Spanned<TypedExpr>>, args: Vec<Spanned<TypedExpr>> },
    Tuple { elements: Vec<Spanned<TypedExpr>> },
    Let { name: String, value: Box<Spanned<TypedExpr>> },
    Var { name: String, value: Box<Spanned<TypedExpr>> },
    Match { scrutinee: Box<Spanned<TypedExpr>>, arms: Vec<TypedMatchArm> },
    Loop { body: Vec<Spanned<TypedExpr>> },
    Return(Box<Spanned<TypedExpr>>),
    /// A call that code generation emits directly: of `ffi_symbol` where
    /// one is given, else of what `callee` resolves to.
    Closure { callee: Box<Spanned<TypedExpr>>, args: Vec<Spanned<TypedExpr>>, ffi_symbol: Option<String> },
    /// `expr::T`: the value of `expr` taken at `target_ty`, with the
    /// predicates of a refined target that remain to be checked when the
    /// program is compiled.
    TypeAscription { expr: Box<Spanned<TypedExpr>>, target_ty: Ty, pending_predicates: Vec<Spanned<TypedExpr>> },
    /// A struct built from its field values, in declaration order.
    StructConstruct { struct_name: String, values: Vec<Spanned<TypedExpr>> },
    /// `expr.field`: the field at `field_index` of the struct `struct_name`.
    FieldAccess { expr: Box<Spanned<TypedExpr>>, struct_name: String, field_name: String, field_index: usize },
    /// `expr.N` on a tuple: `index` as written, `element_index` the
    /// position it names once a negative index counts from the end.
    IndexAccess { expr: Box<Spanned<TypedExpr>>, index: i64, element_index: u32 },
    /// `(expr)`.
    Grouping { inner: Box<Spanned<TypedExpr>> },
    /// `callee!(args)`: the action `callee` called with the tuple `args`;
    /// `caller_arena` is filled in by code generation; `indirect_callee` is
    /// the local variable that holds the action, for an indirect call.
    ActionCall {
        callee: String,
        args: Box<Spanned<TypedExpr>>,
        caller_arena: u32,
        ffi_symbol: Option<String>,
        indirect_callee: Option<Box<Spanned<TypedExpr>>>,
    },
    /// `rxf!()`: a receiver asked of the receiver factory `factory`.
    ReceiverFactoryCall { factory: Box<Spanned<TypedExpr>>, elem_ty: Ty },
}

// ── leaving a loop ──────────────────────────────────────────────────

/// `k` holds a `break` that leaves the loop around it: a `break` nested in
/// an inner loop belongs to that loop and does not count.
pub open spec fn spec_contains_break(k: TypedExprKind) -> bool
    decreases k,
{
    match k {
        TypedExprKind::Break => true,
        TypedExprKind::Loop { .. } => false,
        TypedExprKind::Match { scrutinee, arms } => {
            ||| exists|i: int|
                #![trigger arms@[i]]
                0 <= i < arms@.len() && spec_contains_break(arms@[i].body.node.kind)
            ||| exists|i: int|
                #![trigger arms@[i]]
                0 <= i < arms@.len() && arms@[i].guard is Some && spec_contains_break(
                    arms@[i].guard->0.node.kind,
                )
            ||| spec_contains_break(scrutinee.node.kind)
        },
        TypedExprKind::Let { value, .. } => spec_contains_break(value.node.kind),
        TypedExprKind::Var { value, .. } => spec_contains_break(value.node.kind),
        TypedExprKind::Return(inner) => spec_contains_break(inner.node.kind),
        _ => false,
    }
}

/// Whether `kind` holds a `break` for the loop around it.
pub fn contains_break(kind: &TypedExprKind) -> (r: bool)
    ensures
        r == spec_contains_break(*kind),
    decreases kind,
{
    match kind {
        TypedExprKind::Break => true,
        TypedExprKind::Loop { .. } => false,
        TypedExprKind::Match { scrutinee, arms } => {
            let mut i: usize = 0;
            while i < arms.len()
                invariant
                    i <= arms@.len(),
                    *kind == (TypedExprKind::Match { scrutinee: *scrutinee, arms: *arms }),
                    forall|j: int| #![trigger arms@[j]] 0 <= j < i ==> !spec_contains_break(arms@[j].body.node.kind),
                decreases arms@.len() - i,
            {
                proof {
                    let a = arms@[i as int];
                    assert(decreases_to!(*kind => (*kind)->arms));
                    assert(decreases_to!(*arms => arms@));
                    assert(decreases_to!(arms@ => a));
                    assert(decreases_to!(a => a.body));
                    assert(decreases_to!(a.body => a.body.node));
                    assert(decreases_to!(a.body.node => a.body.node.kind));
                }
                if contains_break(&arms[i].body.node.kind) {
                    assert(spec_contains_break(arms@[i as int].body.node.kind));
                    return true;
                }
                i += 1;
            }
            let mut i: usize = 0;
            while i < arms.len()
                invariant
                    i <= arms@.len(),
                    *kind == (TypedExprKind::Match { scrutinee: *scrutinee, arms: *arms }),
                    forall|j: int| #![trigger arms@[j]] 0 <= j < arms@.len() ==> !spec_contains_break(arms@[j].body.node.kind),
                    forall|j: int|
                        #![trigger arms@[j]]
                        0 <= j < i && arms@[j].guard is Some ==> !spec_contains_break(
                            arms@[j].guard->0.node.kind,
                        ),
                decreases arms@.len() - i,
            {
                match &arms[i].guard {
                    Some(g) => {
                        proof {
                            let a = arms@[i as int];
                            assert(decreases_to!(*kind => (*kind)->arms));
                            assert(decreases_to!(*arms => arms@));
                            assert(decreases_to!(arms@ => a));
                            assert(decreases_to!(a => a.guard));
                            assert(decreases_to!(a.guard => *g));
                            assert(decreases_to!(*g => g.node));
                            assert(decreases_to!(g.node => g.node.kind));
                        }
                        if contains_break(&g.node.kind) {
                            assert(arms@[i as int].guard is Some);
                            assert(spec_contains_break(arms@[i as int].guard->0.node.kind));
                            return true;
                        }
                    },
                    None => {},
                }
                i += 1;
            }
            contains_break(&scrutinee.node.kind)
        },
        TypedExprKind::Let { value, .. } => contains_break(&value.node.kind),
        TypedExprKind::Var { value, .. } => contains_break(&value.node.kind),
        TypedExprKind::Return(inner) => contains_break(&inner.node.kind),
        _ => false,
    }
}

// ── names bound by patterns ─────────────────────────────────────────

/// The names bound by `p` with their types, left to right.
pub open spec fn spec_bindings(p: TypedPattern) -> Seq<(Seq<char>, SpecTy)>
    decreases p,
{
    match p {
        TypedPattern::Ident { name, ty } => seq![(name@, ty@)],
        TypedPattern::Variant { sub_patterns: Some(subs), .. } => spec_bindings_seq(subs@),
        TypedPattern::Tuple { elements } => spec_bindings_seq(elements@),
        TypedPattern::Cons { head, tail } => spec_bindings(head.node) + spec_bindings(tail.node),
        _ => Seq::empty(),
    }
}

/// The names bound by the patterns of `ps` with their types, left to right.
pub open spec fn spec_bindings_seq(ps: Seq<Spanned<TypedPattern>>) -> Seq<(Seq<char>, SpecTy)>
    decreases ps,
{
    if ps.len() == 0 {
        Seq::empty()
    } else {
        spec_bindings_seq(ps.drop_last()) + spec_bindings(ps.last().node)
    }
}

/// The names that `bs` binds.
pub open spec fn bound_names(bs: Seq<(Seq<char>, SpecTy)>) -> Set<Seq<char>> {
    Set::new(|n: Seq<char>| exists|i: int| 0 <= i < bs.len() && #[trigger] bs[i].0 == n)
}

/// `m` with each binding of `bs` inserted in turn, a later one replacing an
/// earlier one of the same name.
pub open spec fn insert_all(m: Map<Seq<char>, SpecTy>, bs: Seq<(Seq<char>, SpecTy)>) -> Map<Seq<char>, SpecTy>
    decreases bs.len(),
{
    if bs.len() == 0 {
        m
    } else {
        insert_all(m, bs.drop_last()).insert(bs.last().0, bs.last().1)
    }
}

proof fn lemma_bound_names_concat(a: Seq<(Seq<char>, SpecTy)>, b: Seq<(Seq<char>, SpecTy)>)
    ensures
        bound_names(a + b) == bound_names(a).union(bound_names(b)),
{
    assert forall|n: Seq<char>| #[trigger] bound_names(a + b).contains(n) == bound_names(a).union(
        bound_names(b),
    ).contains(n) by {
        if bound_names(a + b).contains(n) {
            let i = choose|i: int| 0 <= i < (a + b).len() && #[trigger] (a + b)[i].0 == n;
            if i < a.len() {
                assert(a[i].0 == n);
            } else {
                assert(b[i - a.len()].0 == n);
            }
        }
        if bound_names(a).contains(n) {
            let i = choose|i: int| 0 <= i < a.len() && #[trigger] a[i].0 == n;
            assert((a + b)[i].0 == n);
        }
        if bound_names(b).contains(n) {
            let i = choose|i: int| 0 <= i < b.len() && #[trigger] b[i].0 == n;
            assert((a + b)[a.len() + i].0 == n);
        }
    }
    assert(bound_names(a + b) =~= bound_names(a).union(bound_names(b)));
}

proof fn lemma_insert_all_concat(m: Map<Seq<char>, SpecTy>, a: Seq<(Seq<char>, SpecTy)>, b: Seq<(Seq<char>, SpecTy)>)
    ensures
        insert_all(m, a + b) == insert_all(insert_all(m, a), b),
    decreases b.len(),
{
    if b.len() == 0 {
        assert(a + b =~= a);
    } else {
        assert((a + b).drop_last() =~= a + b.drop_last());
        lemma_insert_all_concat(m, a, b.drop_last());
    }
}

/// A set of names, each held once.
pub struct NameSet {
    names: Vec<String>,
}

impl View for NameSet {
    type V = Set<Seq<char>>;

    closed spec fn view(&self) -> Set<Seq<char>> {
        names_view(self.names@).to_set()
    }
}

impl NameSet {
    #[verifier::type_invariant]
    spec fn distinct(&self) -> bool {
        names_view(self.names@).no_duplicates()
    }

    pub fn new() -> (r: NameSet)
        ensures
            r@ == Set::<Seq<char>>::empty(),
    {
        let r = NameSet { names: Vec::new() };
        assert(names_view(r.names@).to_set() =~= Set::<Seq<char>>::empty());
        r
    }

    /// Whether `name` is in the set.
    pub fn contains(&self, name: &String) -> (r: bool)
        ensures
            r == self@.contains(name@),
    {
        contains_name(self.names.as_slice(), name)
    }

    /// Adds `name`; nothing changes when it is already there.
    pub fn insert(&mut self, name: &String)
        ensures
            final(self)@ == old(self)@.insert(name@),
    {
        proof {
            use_type_invariant(&*self);
        }
        if !contains_name(self.names.as_slice(), name) {
            let ghost before = names_view(self.names@);
            let mut names = Vec::new();
            std::mem::swap(&mut names, &mut self.names);
            names.push(string_clone(name));
            proof {
                assert(names_view(names@) =~= before.push(name@));
                assert forall|a: int, b: int| 0 <= a < b < names_view(names@).len() implies names_view(
                    names@,
                )[a] != names_view(names@)[b] by {
                    if b == before.len() {
                        assert(before[a] == names_view(names@)[a]);
                    }
                }
                assert forall|x: Seq<char>| #[trigger] names_view(names@).to_set().contains(x)
                    == before.to_set().insert(name@).contains(x) by {
                    if names_view(names@).contains(x) {
                        let j = choose|j: int| 0 <= j < names_view(names@).len() && names_view(names@)[j] == x;
                        if j < before.len() {
                            assert(before[j] == x);
                        }
                    }
                    if before.contains(x) {
                        let j = choose|j: int| 0 <= j < before.len() && before[j] == x;
                        assert(names_view(names@)[j] == x);
                    }
                    if x == name@ {
                        assert(names_view(names@)[before.len() as int] == x);
                    }
                }
                assert(names_view(names@).to_set() =~= before.to_set().insert(name@));
            }
            self.names = names;
        } else {
            assert(names_view(self.names@).to_set().insert(name@) =~= names_view(self.names@).to_set());
        }
    }

    /// How many names the set holds.
    pub fn len(&self) -> (r: usize)
        ensures
            r == self@.len(),
            self@.finite(),
    {
        proof {
            use_type_invariant(self);
            names_view(self.names@).unique_seq_to_set();
            vstd::seq_lib::seq_to_set_is_finite(names_view(self.names@));
        }
        self.names.len()
    }
}

/// Adds the names bound by `pattern` to `out`.
pub fn collect_pattern_binds_one(pattern: &TypedPattern, out: &mut NameSet)
    ensures
        final(out)@ == old(out)@.union(bound_names(spec_bindings(*pattern))),
    decreases pattern, 1nat,
{
    match pattern {
        TypedPattern::Ident { name, .. } => {
            out.insert(name);
            proof {
                let bs = spec_bindings(*pattern);
                assert(bs[0].0 == name@);
                assert(bound_names(bs) =~= set![name@]);
            }
        },
        TypedPattern::Variant { sub_patterns: Some(subs), .. } => {
            collect_pattern_binds_seq(subs, out);
        },
        TypedPattern::Tuple { elements } => {
            collect_pattern_binds_seq(elements, out);
        },
        TypedPattern::Cons { head, tail } => {
            let ghost o = out@;
            collect_pattern_binds_one(&head.node, out);
            collect_pattern_binds_one(&tail.node, out);
            proof {
                lemma_bound_names_concat(spec_bindings(head.node), spec_bindings(tail.node));
                assert(out@ =~= o.union(bound_names(spec_bindings(*pattern))));
            }
        },
        _ => {
            assert(bound_names(spec_bindings(*pattern)) =~= Set::<Seq<char>>::empty());
            assert(out@ =~= out@.union(Set::<Seq<char>>::empty()));
        },
    }
}

fn collect_pattern_binds_seq(ps: &Vec<Spanned<TypedPattern>>, out: &mut NameSet)
    ensures
        final(out)@ == old(out)@.union(bound_names(spec_bindings_seq(ps@))),
    decreases ps@, 0nat,
{
    let ghost o = out@;
    let mut k: usize = 0;
    assert(bound_names(spec_bindings_seq(ps@.take(0))) =~= Set::<Seq<char>>::empty()) by {
        assert(ps@.take(0) =~= Seq::<Spanned<TypedPattern>>::empty());
    }
    assert(out@ =~= o.union(Set::<Seq<char>>::empty()));
    while k < ps.len()
        invariant
            k <= ps@.len(),
            out@ == o.union(bound_names(spec_bindings_seq(ps@.take(k as int)))),
        decreases ps@.len() - k,
    {
        proof {
            assert(decreases_to!(ps@ => ps@[k as int]));
            assert(decreases_to!(ps@[k as int] => ps@[k as int].node));
        }
        collect_pattern_binds_one(&ps[k].node, out);
        proof {
            let t = ps@.take(k + 1);
            assert(t.drop_last() =~= ps@.take(k as int));
            assert(t.last() == ps@[k as int]);
            lemma_bound_names_concat(spec_bindings_seq(ps@.take(k as int)), spec_bindings(ps@[k as int].node));
            assert(out@ =~= o.union(bound_names(spec_bindings_seq(t))));
        }
        k += 1;
    }
    assert(ps@.take(ps@.len() as int) =~= ps@);
}

/// Adds the names bound by `patterns` to `out`.
pub fn collect_pattern_binds(patterns: &Vec<Spanned<TypedPattern>>, out: &mut NameSet)
    ensures
        final(out)@ == old(out)@.union(bound_names(spec_bindings_seq(patterns@))),
{
    collect_pattern_binds_seq(patterns, out);
}

/// Records the names bound by `pattern` with their types in `out`; a name
/// bound again takes its latest type.
pub fn collect_pattern_tys_one(pattern: &TypedPattern, out: &mut Substitutions)
    ensures
        final(out)@ == insert_all(old(out)@, spec_bindings(*pattern)),
    decreases pattern, 1nat,
{
    match pattern {
        TypedPattern::Ident { name, ty } => {
            let ghost o = out@;
            out.insert(string_clone(name), ty_clone(ty));
            proof {
                let bs = spec_bindings(*pattern);
                assert(bs.drop_last() =~= Seq::<(Seq<char>, SpecTy)>::empty());
                assert(insert_all(o, Seq::<(Seq<char>, SpecTy)>::empty()) == o);
                assert(bs.last() == (name@, ty@));
            }
        },
        TypedPattern::Variant { sub_patterns: Some(subs), .. } => {
            collect_pattern_tys_seq(subs, out);
        },
        TypedPattern::Tuple { elements } => {
            collect_pattern_tys_seq(elements, out);
        },
        TypedPattern::Cons { head, tail } => {
            let ghost o = out@;
            collect_pattern_tys_one(&head.node, out);
            collect_pattern_tys_one(&tail.node, out);
            proof {
                lemma_insert_all_concat(o, spec_bindings(head.node), spec_bindings(tail.node));
            }
        },
        _ => {},
    }
}

fn collect_pattern_tys_seq(ps: &Vec<Spanned<TypedPattern>>, out: &mut Substitutions)
    ensures
        final(out)@ == insert_all(old(out)@, spec_bindings_seq(ps@)),
    decreases ps@, 0nat,
{
    let ghost o = out@;
    let mut k: usize = 0;
    assert(ps@.take(0) =~= Seq::<Spanned<TypedPattern>>::empty());
    while k < ps.len()
        invariant
            k <= ps@.len(),
            out@ == insert_all(o, spec_bindings_seq(ps@.take(k as int))),
        decreases ps@.len() - k,
    {
        proof {
            assert(decreases_to!(ps@ => ps@[k as int]));
            assert(decreases_to!(ps@[k as int] => ps@[k as int].node));
        }
        collect_pattern_tys_one(&ps[k].node, out);
        proof {
            let t = ps@.take(k + 1);
            assert(t.drop_last() =~= ps@.take(k as int));
            assert(t.last() == ps@[k as int]);
            lemma_insert_all_concat(o, spec_bindings_seq(ps@.take(k as int)), spec_bindings(ps@[k as int].node));
        }
        k += 1;
    }
    assert(ps@.take(ps@.len() as int) =~= ps@);
}

/// Records the names bound by `patterns` with their types in `out`.
pub fn collect_pattern_tys(patterns: &Vec<Spanned<TypedPattern>>, out: &mut Substitutions)
    ensures
        final(out)@ == insert_all(old(out)@, spec_bindings_seq(patterns@)),
{
    collect_pattern_tys_seq(patterns, out);
}

// ── showing the entry point ─────────────────────────────────────────

/// A typed module, with what the driver prints: its entry point.
pub struct TypedModule {
    pub entry: Spanned<TypedExpr>,
}

/// A composite type, which the driver prints through `show`: a list, a
/// tuple, a struct, or a sum type other than `Boolean`. Primitives, `Unit`
/// and `Boolean` carry their own type tags.
pub open spec fn spec_needs_show(t: SpecTy) -> bool {
    match t {
        SpecTy::Sum(name) => name != "Boolean"@,
        SpecTy::List(_) => true,
        SpecTy::Tuple(_) => true,
        SpecTy::Struct(_) => true,
        _ => false,
    }
}

/// `wrapped` is `show <entry>` at the entry's span: a call of the name
/// `show` at type `T => Text`, `T` the entry's type, with no FFI symbol,
/// whose one argument is the entry. The call's value escapes to the
/// caller; the callee is local; neither is in tail position.
pub open spec fn spec_shown(wrapped: Spanned<TypedExpr>, entry: Spanned<TypedExpr>) -> bool {
    &&& wrapped.span == entry.span
    &&& wrapped.node.span == entry.span
    &&& !wrapped.node.tail_pos
    &&& wrapped.node.escape == EscapeTarget::Caller
    &&& wrapped.node.ty@ == SpecTy::Prim(PrimTy::Text)
    &&& match wrapped.node.kind {
        TypedExprKind::Closure { callee, args, ffi_symbol } => {
            &&& ffi_symbol is None
            &&& callee.span == entry.span
            &&& callee.node.span == entry.span
            &&& !callee.node.tail_pos
            &&& callee.node.escape == EscapeTarget::Local
            &&& callee.node.kind matches TypedExprKind::Ident { name } && name@ == "show"@
            &&& callee.node.ty@ == SpecTy::Function(seq![entry.node.ty@], Box::new(SpecTy::Prim(PrimTy::Text)))
            &&& args@ == seq![entry]
        },
        _ => false,
    }
}

/// Wraps the entry point in `show` when its type is composite, so that the
/// driver can print it as text; leaves it otherwise.
pub fn wrap_entry_with_show(typed: &mut TypedModule)
    ensures
        !spec_needs_show(old(typed).entry.node.ty@) ==> *final(typed) == *old(typed),
        spec_needs_show(old(typed).entry.node.ty@) ==> spec_shown(final(typed).entry, old(typed).entry),
{
    proof {
        reveal_strlit("Boolean");
    }
    let needs_wrap = match &typed.entry.node.ty {
        Ty::Prim(_) | Ty::Unit => false,
        Ty::Sum(name) => !is_named(name, "Boolean"),
        Ty::List(_) | Ty::Tuple(_) | Ty::Struct(_) => true,
        _ => false,
    };
    if !needs_wrap {
        return;
    }
    let entry_span: Span = typed.entry.span;
    let entry_ty = ty_clone(&typed.entry.node.ty);
    let mut entry = Spanned::new(
        TypedExpr {
            kind: TypedExprKind::Unit,
            ty: ty_clone(&entry_ty),
            span: entry_span,
            tail_pos: false,
            escape: EscapeTarget::Local,
        },
        entry_span,
    );
    std::mem::swap(&mut entry, &mut typed.entry);
    let ghost old_entry = entry;
    let mut params: Vec<Ty> = Vec::new();
    params.push(entry_ty);
    assert(crate::ty::tys_view(params@) =~= seq![old_entry.node.ty@]);
    let callee = TypedExpr {
        kind: TypedExprKind::Ident { name: owned("show") },
        ty: Ty::Function(params, Box::new(Ty::text_ty())),
        span: entry_span,
        tail_pos: false,
        escape: EscapeTarget::Local,
    };
    let mut args: Vec<Spanned<TypedExpr>> = Vec::new();
    args.push(entry);
    assert(args@ =~= seq![old_entry]);
    typed.entry = Spanned::new(
        TypedExpr {
            kind: TypedExprKind::Closure { callee: Box::new(Spanned::new(callee, entry_span)), args, ffi_symbol: None },
            ty: Ty::text_ty(),
            span: entry_span,
            tail_pos: false,
            escape: EscapeTarget::Caller,
        },
        entry_span,
    );
}

} // verus!
