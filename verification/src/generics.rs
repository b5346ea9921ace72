//! Unification of generic type parameters.
//!
//! `unify` matches the types of the arguments against the parameter
//! types of a generic signature, positionally and top-down (not
//! union-find), filling a substitution that maps type parameters (`T`)
//! and interface parameters (`SHOW`) to concrete types. `apply_subs`
//! replaces parameters by their bindings.

use vstd::prelude::*;

use crate::registry::{
    InterfaceRegistry, RefinesRegistry, SpecRefinesEntry, spec_first_delegation, spec_implements,
};
use crate::subst::Substitutions;
use crate::text::{contains_name, is_named, names_view, owned};
use crate::ty::{
    PrimTy, SpecStructKey, SpecTy, StructKey, Ty, key_name, spec_key_name, string_clone, ty_clone,
    ty_eq, tys_view, lemma_struct_view, lemma_ty_view,
};

verus! {

/// Why two types failed to unify.
#[derive(Debug)]
pub enum UnifyError {
    /// `found` was given where `expected` was required.
    Mismatch { expected: Ty, found: Ty },
    /// The argument type `tname` does not implement the interface `iface`
    /// that the signature declares for the parameter.
    NotImplemented { iface: String, tname: String },
}

/// Mathematical counterpart of [`UnifyError`].
pub enum SpecUnifyError {
    Mismatch { expected: SpecTy, found: SpecTy },
    NotImplemented { iface: Seq<char>, tname: Seq<char> },
}

impl View for UnifyError {
    type V = SpecUnifyError;

    open spec fn view(&self) -> SpecUnifyError {
        match self {
            UnifyError::Mismatch { expected, found } => SpecUnifyError::Mismatch {
                expected: expected@,
                found: found@,
            },
            UnifyError::NotImplemented { iface, tname } => SpecUnifyError::NotImplemented {
                iface: iface@,
                tname: tname@,
            },
        }
    }
}

/// What unification consults besides the two types: the type parameters
/// of the signature and the two registries.
pub struct UnifyCtx {
    pub tps: Seq<Seq<char>>,
    pub refines: Seq<SpecRefinesEntry>,
    pub impls: Seq<(Seq<char>, Seq<char>)>,
}

pub type SpecSubs = Map<Seq<char>, SpecTy>;

/// The final substitution and the verdict of a unification step.
pub type Outcome = (SpecSubs, Result<(), SpecUnifyError>);

/// The registry name of a type, for interface checks.
pub open spec fn spec_ty_name_for_iface_check(t: SpecTy) -> Option<Seq<char>> {
    match t {
        SpecTy::Prim(PrimTy::Int) => Some("Int"@),
        SpecTy::Prim(PrimTy::Float) => Some("Float"@),
        SpecTy::Prim(PrimTy::Rational) => Some("Rational"@),
        SpecTy::Prim(PrimTy::Text) => Some("Text"@),
        SpecTy::Struct(k) => Some(spec_key_name(k)),
        SpecTy::Generic(n, _) => Some(n),
        SpecTy::List(_) => Some("List"@),
        SpecTy::Array(_) => Some("Array"@),
        SpecTy::Range(_) => Some("Range"@),
        SpecTy::Dict(_, _) => Some("Dict"@),
        SpecTy::SetOf(_) => Some("Set"@),
        SpecTy::Tensor(_) => Some("Tensor"@),
        _ => None,
    }
}

/// A refined argument replaced by its base type when it delegates
/// `iface` through a `refines` entry; otherwise the argument itself.
pub open spec fn spec_normalize_refined(
    arg: SpecTy,
    iface: Seq<char>,
    refines: Seq<SpecRefinesEntry>,
) -> SpecTy {
    match arg {
        SpecTy::Struct(k) => match spec_first_delegation(refines, spec_key_name(k), iface) {
            Some(base) => base,
            None => arg,
        },
        _ => arg,
    }
}

/// The type that the concrete part of a family instance names.
pub open spec fn spec_instance_inner(c: Seq<char>) -> SpecTy {
    if c == "Int"@ {
        SpecTy::Prim(PrimTy::Int)
    } else if c == "Float"@ {
        SpecTy::Prim(PrimTy::Float)
    } else if c == "Rational"@ {
        SpecTy::Prim(PrimTy::Rational)
    } else if c == "Text"@ {
        SpecTy::Prim(PrimTy::Text)
    } else {
        SpecTy::Struct(SpecStructKey::Plain(c))
    }
}

/// Binds `name` to `t`, or checks an existing binding against `t`.
pub open spec fn spec_bind(name: Seq<char>, t: SpecTy, subs: SpecSubs) -> Outcome {
    if subs.contains_key(name) {
        if subs[name] != t {
            (subs, Err(SpecUnifyError::Mismatch { expected: subs[name], found: t }))
        } else {
            (subs, Ok(()))
        }
    } else {
        (subs.insert(name, t), Ok(()))
    }
}

/// The last resort: equal types unify, anything else is a mismatch.
pub open spec fn spec_unify_eq(p: SpecTy, a: SpecTy, subs: SpecSubs) -> Outcome {
    if p == a {
        (subs, Ok(()))
    } else {
        (subs, Err(SpecUnifyError::Mismatch { expected: p, found: a }))
    }
}

/// Unification of one parameter type with one argument type.
pub open spec fn spec_unify_one(p: SpecTy, a: SpecTy, ctx: UnifyCtx, subs: SpecSubs) -> Outcome
    decreases p,
{
    match p {
        SpecTy::Var(n) => if ctx.tps.contains(n) {
            spec_bind(n, a, subs)
        } else {
            (subs, Ok(()))
        },
        SpecTy::Interface(n) => if ctx.tps.contains(n) {
            let norm = spec_normalize_refined(a, n, ctx.refines);
            if norm != a {
                spec_bind(n, norm, subs)
            } else if spec_ty_name_for_iface_check(a) is Some && !spec_implements(
                ctx.impls,
                spec_ty_name_for_iface_check(a)->0,
                n,
            ) {
                (
                    subs,
                    Err(
                        SpecUnifyError::NotImplemented {
                            iface: n,
                            tname: spec_ty_name_for_iface_check(a)->0,
                        },
                    ),
                )
            } else {
                spec_bind(n, a, subs)
            }
        } else {
            spec_unify_eq(p, a, subs)
        },
        SpecTy::Generic(n, ps) => match a {
            SpecTy::Generic(m, qs) => if n == m && ps.len() == qs.len() {
                spec_unify_seq(ps, qs, ctx, subs)
            } else {
                spec_unify_eq(p, a, subs)
            },
            SpecTy::Dict(ak, av) => if n == "Dict"@ && ps.len() == 2 {
                let r = spec_unify_one(ps[0], *ak, ctx, subs);
                if r.1 is Err {
                    r
                } else {
                    spec_unify_one(ps[1], *av, ctx, r.0)
                }
            } else {
                spec_unify_eq(p, a, subs)
            },
            SpecTy::SetOf(x) => if n == "Set"@ && ps.len() == 1 {
                spec_unify_one(ps[0], *x, ctx, subs)
            } else {
                spec_unify_eq(p, a, subs)
            },
            SpecTy::Struct(SpecStructKey::Instance(fam, c)) => if n == fam && ps.len() == 1 {
                spec_unify_one(ps[0], spec_instance_inner(c), ctx, subs)
            } else {
                spec_unify_eq(p, a, subs)
            },
            _ => spec_unify_eq(p, a, subs),
        },
        SpecTy::List(x) => match a {
            SpecTy::List(y) => spec_unify_one(*x, *y, ctx, subs),
            _ => spec_unify_eq(p, a, subs),
        },
        SpecTy::Array(x) => match a {
            SpecTy::Array(y) => spec_unify_one(*x, *y, ctx, subs),
            _ => spec_unify_eq(p, a, subs),
        },
        SpecTy::Range(x) => match a {
            SpecTy::Range(y) => spec_unify_one(*x, *y, ctx, subs),
            _ => spec_unify_eq(p, a, subs),
        },
        SpecTy::Tensor(x) => match a {
            SpecTy::Tensor(y) => spec_unify_one(*x, *y, ctx, subs),
            _ => spec_unify_eq(p, a, subs),
        },
        SpecTy::Sender(x) => match a {
            SpecTy::Sender(y) => spec_unify_one(*x, *y, ctx, subs),
            _ => spec_unify_eq(p, a, subs),
        },
        SpecTy::Receiver(x) => match a {
            SpecTy::Receiver(y) => spec_unify_one(*x, *y, ctx, subs),
            _ => spec_unify_eq(p, a, subs),
        },
        SpecTy::ReceiverFactory(x) => match a {
            SpecTy::ReceiverFactory(y) => spec_unify_one(*x, *y, ctx, subs),
            _ => spec_unify_eq(p, a, subs),
        },
        SpecTy::SetOf(x) => match a {
            SpecTy::SetOf(y) => spec_unify_one(*x, *y, ctx, subs),
            SpecTy::Generic(m, qs) => if m == "Set"@ && qs.len() == 1 {
                spec_unify_one(*x, qs[0], ctx, subs)
            } else {
                spec_unify_eq(p, a, subs)
            },
            _ => spec_unify_eq(p, a, subs),
        },
        SpecTy::Dict(pk, pv) => match a {
            SpecTy::Dict(ak, av) => {
                let r = spec_unify_one(*pk, *ak, ctx, subs);
                if r.1 is Err {
                    r
                } else {
                    spec_unify_one(*pv, *av, ctx, r.0)
                }
            },
            SpecTy::Generic(m, qs) => if m == "Dict"@ && qs.len() == 2 {
                let r = spec_unify_one(*pk, qs[0], ctx, subs);
                if r.1 is Err {
                    r
                } else {
                    spec_unify_one(*pv, qs[1], ctx, r.0)
                }
            } else {
                spec_unify_eq(p, a, subs)
            },
            _ => spec_unify_eq(p, a, subs),
        },
        SpecTy::Tuple(ps) => match a {
            SpecTy::Tuple(qs) => if ps.len() == qs.len() {
                spec_unify_seq(ps, qs, ctx, subs)
            } else {
                spec_unify_eq(p, a, subs)
            },
            _ => spec_unify_eq(p, a, subs),
        },
        SpecTy::Struct(SpecStructKey::Instance(fp, cp)) => match a {
            SpecTy::Struct(SpecStructKey::Instance(fa, ca)) => if fp == fa {
                if ctx.tps.contains(cp) {
                    spec_bind(cp, spec_instance_inner(ca), subs)
                } else {
                    (subs, Ok(()))
                }
            } else {
                spec_unify_eq(p, a, subs)
            },
            _ => spec_unify_eq(p, a, subs),
        },
        _ => spec_unify_eq(p, a, subs),
    }
}

/// Pairwise unification, left to right, stopping at the first failure.
/// The pairs are those of `ps` with the same positions of `qs`.
pub open spec fn spec_unify_seq(
    ps: Seq<SpecTy>,
    qs: Seq<SpecTy>,
    ctx: UnifyCtx,
    subs: SpecSubs,
) -> Outcome
    decreases ps,
{
    if ps.len() == 0 || qs.len() == 0 {
        (subs, Ok(()))
    } else {
        let r = spec_unify_one(ps[0], qs[0], ctx, subs);
        if r.1 is Err {
            r
        } else {
            spec_unify_seq(ps.drop_first(), qs.drop_first(), ctx, r.0)
        }
    }
}

/// `ty` with every parameter bound in `subs` replaced by its binding.
pub open spec fn spec_apply_subs(t: SpecTy, subs: SpecSubs) -> SpecTy
    decreases t,
{
    match t {
        SpecTy::Var(n) => if subs.contains_key(n) {
            subs[n]
        } else {
            t
        },
        SpecTy::Interface(n) => if subs.contains_key(n) {
            subs[n]
        } else {
            t
        },
        SpecTy::Generic(n, args) => SpecTy::Generic(n, spec_apply_subs_seq(args, subs)),
        SpecTy::Function(ps, r) => SpecTy::Function(
            spec_apply_subs_seq(ps, subs),
            Box::new(spec_apply_subs(*r, subs)),
        ),
        SpecTy::Action(ps, r) => SpecTy::Action(
            spec_apply_subs_seq(ps, subs),
            Box::new(spec_apply_subs(*r, subs)),
        ),
        SpecTy::Tuple(es) => SpecTy::Tuple(spec_apply_subs_seq(es, subs)),
        SpecTy::List(e) => SpecTy::List(Box::new(spec_apply_subs(*e, subs))),
        SpecTy::Array(e) => SpecTy::Array(Box::new(spec_apply_subs(*e, subs))),
        SpecTy::Range(e) => SpecTy::Range(Box::new(spec_apply_subs(*e, subs))),
        SpecTy::Dict(k, v) => SpecTy::Dict(
            Box::new(spec_apply_subs(*k, subs)),
            Box::new(spec_apply_subs(*v, subs)),
        ),
        SpecTy::SetOf(e) => SpecTy::SetOf(Box::new(spec_apply_subs(*e, subs))),
        SpecTy::Tensor(e) => SpecTy::Tensor(Box::new(spec_apply_subs(*e, subs))),
        SpecTy::Sender(e) => SpecTy::Sender(Box::new(spec_apply_subs(*e, subs))),
        SpecTy::Receiver(e) => SpecTy::Receiver(Box::new(spec_apply_subs(*e, subs))),
        SpecTy::ReceiverFactory(e) => SpecTy::ReceiverFactory(Box::new(spec_apply_subs(*e, subs))),
        SpecTy::Struct(SpecStructKey::Generic(n, args)) => SpecTy::Struct(
            SpecStructKey::Generic(n, spec_apply_subs_seq(args, subs)),
        ),
        _ => t,
    }
}

pub open spec fn spec_apply_subs_seq(ts: Seq<SpecTy>, subs: SpecSubs) -> Seq<SpecTy>
    decreases ts,
{
    Seq::new(
        ts.len(),
        |i: int|
            if 0 <= i < ts.len() {
                spec_apply_subs(ts[i], subs)
            } else {
                SpecTy::Unit
            },
    )
}


/// The unification context that the executable arguments denote.
pub open spec fn ctx_of(
    type_params: Seq<String>,
    refines_registry: Seq<SpecRefinesEntry>,
    iface_registry: Seq<(Seq<char>, Seq<char>)>,
) -> UnifyCtx {
    UnifyCtx { tps: names_view(type_params), refines: refines_registry, impls: iface_registry }
}

/// An executable verdict agrees with a mathematical one.
pub open spec fn verdict_matches(r: Result<(), UnifyError>, s: Result<(), SpecUnifyError>) -> bool {
    match r {
        Ok(()) => s is Ok,
        Err(e) => s == Err::<(), SpecUnifyError>(e@),
    }
}

/// The name under which the interface registry knows a type, if it has one.
pub fn ty_name_for_iface_check(ty: &Ty) -> (r: Option<String>)
    ensures
        r matches Some(n) ==> spec_ty_name_for_iface_check(ty@) == Some(n@),
        r is None ==> spec_ty_name_for_iface_check(ty@) is None,
{
    match ty {
        Ty::Prim(PrimTy::Int) => Some(owned("Int")),
        Ty::Prim(PrimTy::Float) => Some(owned("Float")),
        Ty::Prim(PrimTy::Rational) => Some(owned("Rational")),
        Ty::Prim(PrimTy::Text) => Some(owned("Text")),
        Ty::Struct(key) => Some(string_clone(key_name(key))),
        Ty::Generic(name, _) => Some(string_clone(name)),
        Ty::List(_) => Some(owned("List")),
        Ty::Array(_) => Some(owned("Array")),
        Ty::Range(_) => Some(owned("Range")),
        Ty::Dict(_, _) => Some(owned("Dict")),
        Ty::SetOf(_) => Some(owned("Set")),
        Ty::Tensor(_) => Some(owned("Tensor")),
        _ => None,
    }
}

/// A refined argument normalised to the base type to which it delegates
/// `interface_name`; any other argument unchanged.
pub fn normalize_refined(
    arg: &Ty,
    interface_name: &String,
    refines_registry: &RefinesRegistry,
) -> (r: Ty)
    ensures
        r@ == spec_normalize_refined(arg@, interface_name@, refines_registry@),
{
    match arg {
        Ty::Struct(key) => {
            match refines_registry.first_delegation(key_name(key), interface_name) {
                Some(base) => base,
                None => ty_clone(arg),
            }
        },
        _ => ty_clone(arg),
    }
}

/// The type named by the concrete part of a family instance.
pub fn instance_inner(c: &String) -> (r: Ty)
    ensures
        r@ == spec_instance_inner(c@),
{
    proof {
        reveal_strlit("Int");
        reveal_strlit("Float");
        reveal_strlit("Rational");
        reveal_strlit("Text");
    }
    if is_named(c, "Int") {
        Ty::Prim(PrimTy::Int)
    } else if is_named(c, "Float") {
        Ty::Prim(PrimTy::Float)
    } else if is_named(c, "Rational") {
        Ty::Prim(PrimTy::Rational)
    } else if is_named(c, "Text") {
        Ty::Prim(PrimTy::Text)
    } else {
        let k = StructKey::Plain(string_clone(c));
        assert(k@ == SpecStructKey::Plain(c@));
        Ty::Struct(k)
    }
}

/// Binds `name` to `t`, or checks an earlier binding against `t`.
fn bind_param(name: &String, t: Ty, subs: &mut Substitutions) -> (r: Result<(), UnifyError>)
    ensures
        final(subs)@ == spec_bind(name@, t@, old(subs)@).0,
        verdict_matches(r, spec_bind(name@, t@, old(subs)@).1),
{
    match subs.get(name) {
        Some(existing) => {
            if !ty_eq(existing, &t) {
                let expected = ty_clone(existing);
                Err(UnifyError::Mismatch { expected, found: t })
            } else {
                Ok(())
            }
        },
        None => {
            subs.insert(string_clone(name), t);
            Ok(())
        },
    }
}

/// Structural equality as the last resort.
fn unify_eq(param: &Ty, arg: &Ty) -> (r: Result<(), UnifyError>)
    ensures
        verdict_matches(r, spec_unify_eq(param@, arg@, Map::empty()).1),
{
    if ty_eq(param, arg) {
        Ok(())
    } else {
        Err(UnifyError::Mismatch { expected: ty_clone(param), found: ty_clone(arg) })
    }
}

/// Unifies the pairs of `params` and `args`, position by position, up to
/// the shorter of the two; stops at the first pair that fails.
fn unify_seq(
    params: &[Ty],
    args: &[Ty],
    type_params: &[String],
    subs: &mut Substitutions,
    refines_registry: &RefinesRegistry,
    iface_registry: &InterfaceRegistry,
) -> (r: Result<(), UnifyError>)
    ensures
        final(subs)@ == spec_unify_seq(
            tys_view(params@),
            tys_view(args@),
            ctx_of(type_params@, refines_registry@, iface_registry@),
            old(subs)@,
        ).0,
        verdict_matches(
            r,
            spec_unify_seq(
                tys_view(params@),
                tys_view(args@),
                ctx_of(type_params@, refines_registry@, iface_registry@),
                old(subs)@,
            ).1,
        ),
    decreases params@, 0nat,
{
    let ghost ctx = ctx_of(type_params@, refines_registry@, iface_registry@);
    let ghost ps = tys_view(params@);
    let ghost qs = tys_view(args@);
    let ghost whole = spec_unify_seq(ps, qs, ctx, old(subs)@);
    assert(ps.len() == params@.len() && qs.len() == args@.len());
    assert(ps.skip(0) =~= ps);
    assert(qs.skip(0) =~= qs);
    let mut i: usize = 0;
    while i < params.len() && i < args.len()
        invariant
            i <= params@.len(),
            i <= args@.len(),
            ps == tys_view(params@),
            qs == tys_view(args@),
            ctx == ctx_of(type_params@, refines_registry@, iface_registry@),
            whole == spec_unify_seq(ps.skip(i as int), qs.skip(i as int), ctx, subs@),
            whole == spec_unify_seq(ps, qs, ctx, old(subs)@),
        decreases params@.len() - i,
    {
        proof {
            assert(decreases_to!(params@ => params@[i as int]));
            assert(ps.skip(i as int)[0] == params@[i as int]@);
            assert(qs.skip(i as int)[0] == args@[i as int]@);
            assert(ps.skip(i as int).drop_first() =~= ps.skip(i + 1));
            assert(qs.skip(i as int).drop_first() =~= qs.skip(i + 1));
        }
        let ghost before = subs@;
        let r = unify_one(&params[i], &args[i], type_params, subs, refines_registry, iface_registry);
        proof {
            let one = spec_unify_one(params@[i as int]@, args@[i as int]@, ctx, before);
            assert(spec_unify_seq(ps.skip(i as int), qs.skip(i as int), ctx, before) == if one.1 is Err {
                one
            } else {
                spec_unify_seq(ps.skip(i + 1), qs.skip(i + 1), ctx, one.0)
            });
        }
        if r.is_err() {
            return r;
        }
        i += 1;
    }
    assert(ps.skip(i as int).len() == 0 || qs.skip(i as int).len() == 0);
    r_ok()
}

fn r_ok() -> (r: Result<(), UnifyError>)
    ensures
        r is Ok,
{
    Ok(())
}

/// Unifies the argument types with the parameter types of a generic
/// signature, position by position.
///
/// `type_params` names the type parameters (e.g. `["T"]`). `subs` may
/// already hold bindings; they are kept, new ones are added, and every
/// parameter met again must be bound to the same type. The first pair
/// that does not unify ends the walk with its error; the bindings made
/// before it stay in `subs`.
pub fn unify(
    params: &[Ty],
    args: &[Ty],
    type_params: &[String],
    subs: &mut Substitutions,
    refines_registry: &RefinesRegistry,
    iface_registry: &InterfaceRegistry,
) -> (r: Result<(), UnifyError>)
    ensures
        final(subs)@ == spec_unify_seq(
            tys_view(params@),
            tys_view(args@),
            ctx_of(type_params@, refines_registry@, iface_registry@),
            old(subs)@,
        ).0,
        verdict_matches(
            r,
            spec_unify_seq(
                tys_view(params@),
                tys_view(args@),
                ctx_of(type_params@, refines_registry@, iface_registry@),
                old(subs)@,
            ).1,
        ),
{
    unify_seq(params, args, type_params, subs, refines_registry, iface_registry)
}

/// Unifies one parameter type with one argument type.
pub fn unify_one(
    param: &Ty,
    arg: &Ty,
    type_params: &[String],
    subs: &mut Substitutions,
    refines_registry: &RefinesRegistry,
    iface_registry: &InterfaceRegistry,
) -> (r: Result<(), UnifyError>)
    ensures
        final(subs)@ == spec_unify_one(
            param@,
            arg@,
            ctx_of(type_params@, refines_registry@, iface_registry@),
            old(subs)@,
        ).0,
        verdict_matches(
            r,
            spec_unify_one(
                param@,
                arg@,
                ctx_of(type_params@, refines_registry@, iface_registry@),
                old(subs)@,
            ).1,
        ),
    decreases param, 1nat,
{
    match param {
        Ty::Var(_) => unify_var_param(param, arg, type_params, subs, refines_registry, iface_registry),
        Ty::Interface(_) => unify_iface_param(param, arg, type_params, subs, refines_registry, iface_registry),
        Ty::Generic(_, _) => unify_generic_param(param, arg, type_params, subs, refines_registry, iface_registry),
        Ty::List(_) | Ty::Array(_) | Ty::Range(_) | Ty::Tensor(_) | Ty::Sender(_) | Ty::Receiver(_)
        | Ty::ReceiverFactory(_) => unify_unary_param(param, arg, type_params, subs, refines_registry, iface_registry),
        Ty::SetOf(_) => unify_set_param(param, arg, type_params, subs, refines_registry, iface_registry),
        Ty::Dict(_, _) => unify_dict_param(param, arg, type_params, subs, refines_registry, iface_registry),
        Ty::Tuple(_) => unify_tuple_param(param, arg, type_params, subs, refines_registry, iface_registry),
        Ty::Struct(StructKey::Instance(_, _)) => unify_instance_param(param, arg, type_params, subs, refines_registry, iface_registry),
        _ => {
            proof {
                lemma_struct_view(*param);
            }
            unify_eq(param, arg)
        },
    }
}

/// A type-parameter variable binds; any other variable accepts any argument.
fn unify_var_param(
    param: &Ty,
    arg: &Ty,
    type_params: &[String],
    subs: &mut Substitutions,
    refines_registry: &RefinesRegistry,
    iface_registry: &InterfaceRegistry,
) -> (r: Result<(), UnifyError>)
    requires
        param is Var,
    ensures
        final(subs)@ == spec_unify_one(
            param@,
            arg@,
            ctx_of(type_params@, refines_registry@, iface_registry@),
            old(subs)@,
        ).0,
        verdict_matches(
            r,
            spec_unify_one(
                param@,
                arg@,
                ctx_of(type_params@, refines_registry@, iface_registry@),
                old(subs)@,
            ).1,
        ),
    decreases param, 0nat,
{
    proof {
        lemma_struct_view(*param);
        lemma_struct_view(*arg);
    }
    match param {
        Ty::Var(name) => {
            if contains_name(type_params, name) {
                bind_param(name, ty_clone(arg), subs)
            } else {
                Ok(())
            }
        },
        _ => Ok(()),
    }
}

/// An interface parameter binds to the argument (or to the base type it delegates to).
fn unify_iface_param(
    param: &Ty,
    arg: &Ty,
    type_params: &[String],
    subs: &mut Substitutions,
    refines_registry: &RefinesRegistry,
    iface_registry: &InterfaceRegistry,
) -> (r: Result<(), UnifyError>)
    requires
        param is Interface,
    ensures
        final(subs)@ == spec_unify_one(
            param@,
            arg@,
            ctx_of(type_params@, refines_registry@, iface_registry@),
            old(subs)@,
        ).0,
        verdict_matches(
            r,
            spec_unify_one(
                param@,
                arg@,
                ctx_of(type_params@, refines_registry@, iface_registry@),
                old(subs)@,
            ).1,
        ),
    decreases param, 0nat,
{
    proof {
        lemma_struct_view(*param);
        lemma_struct_view(*arg);
    }
    match param {
        Ty::Interface(name) => {
            if contains_name(type_params, name) {
                let normalized = normalize_refined(arg, name, refines_registry);
                if !ty_eq(&normalized, arg) {
                    bind_param(name, normalized, subs)
                } else {
                    match ty_name_for_iface_check(arg) {
                        Some(tn) => {
                            if !iface_registry.type_implements(&tn, name) {
                                return Err(
                                    UnifyError::NotImplemented { iface: string_clone(name), tname: tn },
                                );
                            }
                        },
                        None => {},
                    }
                    bind_param(name, ty_clone(arg), subs)
                }
            } else {
                unify_eq(param, arg)
            }
        },
        _ => Ok(()),
    }
}

/// A generic parameter against a generic, a dictionary, a set or a family instance.
fn unify_generic_param(
    param: &Ty,
    arg: &Ty,
    type_params: &[String],
    subs: &mut Substitutions,
    refines_registry: &RefinesRegistry,
    iface_registry: &InterfaceRegistry,
) -> (r: Result<(), UnifyError>)
    requires
        param is Generic,
    ensures
        final(subs)@ == spec_unify_one(
            param@,
            arg@,
            ctx_of(type_params@, refines_registry@, iface_registry@),
            old(subs)@,
        ).0,
        verdict_matches(
            r,
            spec_unify_one(
                param@,
                arg@,
                ctx_of(type_params@, refines_registry@, iface_registry@),
                old(subs)@,
            ).1,
        ),
    decreases param, 0nat,
{
    proof {
        lemma_struct_view(*param);
        lemma_struct_view(*arg);
    }
    match param {
        Ty::Generic(n, ps) => match arg {
            Ty::Generic(m, qs) => {
                assert(param@ == SpecTy::Generic(n@, tys_view(ps@)));
                assert(arg@ == SpecTy::Generic(m@, tys_view(qs@)));
                if *n == *m && ps.len() == qs.len() {
                    unify_seq(ps.as_slice(), qs.as_slice(), type_params, subs, refines_registry, iface_registry)
                } else {
                    unify_eq(param, arg)
                }
            },
            Ty::Dict(ak, av) => {
                assert(param@ == SpecTy::Generic(n@, tys_view(ps@)));
                if is_named(n, "Dict") && ps.len() == 2 {
                    proof {
                        assert(decreases_to!(ps@ => ps@[0]));
                        assert(decreases_to!(ps@ => ps@[1]));
                        assert(tys_view(ps@)[0] == ps@[0]@);
                        assert(tys_view(ps@)[1] == ps@[1]@);
                    }
                    let r = unify_one(&ps[0], ak, type_params, subs, refines_registry, iface_registry);
                    if r.is_err() {
                        return r;
                    }
                    unify_one(&ps[1], av, type_params, subs, refines_registry, iface_registry)
                } else {
                    unify_eq(param, arg)
                }
            },
            Ty::SetOf(x) => {
                assert(param@ == SpecTy::Generic(n@, tys_view(ps@)));
                if is_named(n, "Set") && ps.len() == 1 {
                    proof {
                        assert(decreases_to!(ps@ => ps@[0]));
                        assert(tys_view(ps@)[0] == ps@[0]@);
                    }
                    unify_one(&ps[0], x, type_params, subs, refines_registry, iface_registry)
                } else {
                    unify_eq(param, arg)
                }
            },
            Ty::Struct(StructKey::Instance(fam, c)) => {
                assert(param@ == SpecTy::Generic(n@, tys_view(ps@)));
                assert(arg@ == SpecTy::Struct(SpecStructKey::Instance(fam@, c@)));
                if *n == *fam && ps.len() == 1 {
                    proof {
                        assert(decreases_to!(ps@ => ps@[0]));
                        assert(tys_view(ps@)[0] == ps@[0]@);
                    }
                    let inner = instance_inner(c);
                    unify_one(&ps[0], &inner, type_params, subs, refines_registry, iface_registry)
                } else {
                    unify_eq(param, arg)
                }
            },
            _ => unify_eq(param, arg),
        },
        _ => Ok(()),
    }
}

/// A one-argument container parameter against the same container.
fn unify_unary_param(
    param: &Ty,
    arg: &Ty,
    type_params: &[String],
    subs: &mut Substitutions,
    refines_registry: &RefinesRegistry,
    iface_registry: &InterfaceRegistry,
) -> (r: Result<(), UnifyError>)
    requires
        param is List || param is Array || param is Range || param is Tensor || param is Sender || param is Receiver || param is ReceiverFactory,
    ensures
        final(subs)@ == spec_unify_one(
            param@,
            arg@,
            ctx_of(type_params@, refines_registry@, iface_registry@),
            old(subs)@,
        ).0,
        verdict_matches(
            r,
            spec_unify_one(
                param@,
                arg@,
                ctx_of(type_params@, refines_registry@, iface_registry@),
                old(subs)@,
            ).1,
        ),
    decreases param, 0nat,
{
    proof {
        lemma_struct_view(*param);
        lemma_struct_view(*arg);
    }
    match (param, arg) {
        (Ty::List(x), Ty::List(y)) => unify_one(x, y, type_params, subs, refines_registry, iface_registry),
        (Ty::Array(x), Ty::Array(y)) => unify_one(x, y, type_params, subs, refines_registry, iface_registry),
        (Ty::Range(x), Ty::Range(y)) => unify_one(x, y, type_params, subs, refines_registry, iface_registry),
        (Ty::Tensor(x), Ty::Tensor(y)) => unify_one(x, y, type_params, subs, refines_registry, iface_registry),
        (Ty::Sender(x), Ty::Sender(y)) => unify_one(x, y, type_params, subs, refines_registry, iface_registry),
        (Ty::Receiver(x), Ty::Receiver(y)) => unify_one(x, y, type_params, subs, refines_registry, iface_registry),
        (Ty::ReceiverFactory(x), Ty::ReceiverFactory(y)) => unify_one(x, y, type_params, subs, refines_registry, iface_registry),
        _ => unify_eq(param, arg),
    }
}

/// A set parameter against a set or a generic `Set`.
fn unify_set_param(
    param: &Ty,
    arg: &Ty,
    type_params: &[String],
    subs: &mut Substitutions,
    refines_registry: &RefinesRegistry,
    iface_registry: &InterfaceRegistry,
) -> (r: Result<(), UnifyError>)
    requires
        param is SetOf,
    ensures
        final(subs)@ == spec_unify_one(
            param@,
            arg@,
            ctx_of(type_params@, refines_registry@, iface_registry@),
            old(subs)@,
        ).0,
        verdict_matches(
            r,
            spec_unify_one(
                param@,
                arg@,
                ctx_of(type_params@, refines_registry@, iface_registry@),
                old(subs)@,
            ).1,
        ),
    decreases param, 0nat,
{
    proof {
        lemma_struct_view(*param);
        lemma_struct_view(*arg);
    }
    match param {
        Ty::SetOf(x) => match arg {
            Ty::SetOf(y) => unify_one(x, y, type_params, subs, refines_registry, iface_registry),
            Ty::Generic(m, qs) => {
                assert(arg@ == SpecTy::Generic(m@, tys_view(qs@)));
                if is_named(m, "Set") && qs.len() == 1 {
                    proof {
                        assert(tys_view(qs@)[0] == qs@[0]@);
                    }
                    unify_one(x, &qs[0], type_params, subs, refines_registry, iface_registry)
                } else {
                    unify_eq(param, arg)
                }
            },
            _ => unify_eq(param, arg),
        },
        _ => Ok(()),
    }
}

/// A dictionary parameter against a dictionary or a generic `Dict`.
fn unify_dict_param(
    param: &Ty,
    arg: &Ty,
    type_params: &[String],
    subs: &mut Substitutions,
    refines_registry: &RefinesRegistry,
    iface_registry: &InterfaceRegistry,
) -> (r: Result<(), UnifyError>)
    requires
        param is Dict,
    ensures
        final(subs)@ == spec_unify_one(
            param@,
            arg@,
            ctx_of(type_params@, refines_registry@, iface_registry@),
            old(subs)@,
        ).0,
        verdict_matches(
            r,
            spec_unify_one(
                param@,
                arg@,
                ctx_of(type_params@, refines_registry@, iface_registry@),
                old(subs)@,
            ).1,
        ),
    decreases param, 0nat,
{
    proof {
        lemma_struct_view(*param);
        lemma_struct_view(*arg);
    }
    match param {
        Ty::Dict(pk, pv) => match arg {
            Ty::Dict(ak, av) => {
                let r = unify_one(pk, ak, type_params, subs, refines_registry, iface_registry);
                if r.is_err() {
                    return r;
                }
                unify_one(pv, av, type_params, subs, refines_registry, iface_registry)
            },
            Ty::Generic(m, qs) => {
                assert(arg@ == SpecTy::Generic(m@, tys_view(qs@)));
                if is_named(m, "Dict") && qs.len() == 2 {
                    proof {
                        assert(tys_view(qs@)[0] == qs@[0]@);
                        assert(tys_view(qs@)[1] == qs@[1]@);
                    }
                    let r = unify_one(pk, &qs[0], type_params, subs, refines_registry, iface_registry);
                    if r.is_err() {
                        return r;
                    }
                    unify_one(pv, &qs[1], type_params, subs, refines_registry, iface_registry)
                } else {
                    unify_eq(param, arg)
                }
            },
            _ => unify_eq(param, arg),
        },
        _ => Ok(()),
    }
}

/// A tuple parameter against a tuple of the same length.
fn unify_tuple_param(
    param: &Ty,
    arg: &Ty,
    type_params: &[String],
    subs: &mut Substitutions,
    refines_registry: &RefinesRegistry,
    iface_registry: &InterfaceRegistry,
) -> (r: Result<(), UnifyError>)
    requires
        param is Tuple,
    ensures
        final(subs)@ == spec_unify_one(
            param@,
            arg@,
            ctx_of(type_params@, refines_registry@, iface_registry@),
            old(subs)@,
        ).0,
        verdict_matches(
            r,
            spec_unify_one(
                param@,
                arg@,
                ctx_of(type_params@, refines_registry@, iface_registry@),
                old(subs)@,
            ).1,
        ),
    decreases param, 0nat,
{
    proof {
        lemma_struct_view(*param);
        lemma_struct_view(*arg);
    }
    match (param, arg) {
        (Ty::Tuple(ps), Ty::Tuple(qs)) => {
            assert(param@ == SpecTy::Tuple(tys_view(ps@)));
            assert(arg@ == SpecTy::Tuple(tys_view(qs@)));
            if ps.len() == qs.len() {
                assert(tys_view(ps@).len() == tys_view(qs@).len());
                unify_seq(ps.as_slice(), qs.as_slice(), type_params, subs, refines_registry, iface_registry)
            } else {
                unify_eq(param, arg)
            }
        },
        _ => unify_eq(param, arg),
    }
}

/// A family instance whose concrete part is a type parameter, against an instance of the same family.
fn unify_instance_param(
    param: &Ty,
    arg: &Ty,
    type_params: &[String],
    subs: &mut Substitutions,
    refines_registry: &RefinesRegistry,
    iface_registry: &InterfaceRegistry,
) -> (r: Result<(), UnifyError>)
    requires
        param matches Ty::Struct(StructKey::Instance(_, _)),
    ensures
        final(subs)@ == spec_unify_one(
            param@,
            arg@,
            ctx_of(type_params@, refines_registry@, iface_registry@),
            old(subs)@,
        ).0,
        verdict_matches(
            r,
            spec_unify_one(
                param@,
                arg@,
                ctx_of(type_params@, refines_registry@, iface_registry@),
                old(subs)@,
            ).1,
        ),
    decreases param, 0nat,
{
    proof {
        lemma_struct_view(*param);
        lemma_struct_view(*arg);
    }
    match (param, arg) {
        (Ty::Struct(StructKey::Instance(fp, cp)), Ty::Struct(StructKey::Instance(fa, ca))) => {
            assert(param@ == SpecTy::Struct(SpecStructKey::Instance(fp@, cp@)));
            assert(arg@ == SpecTy::Struct(SpecStructKey::Instance(fa@, ca@)));
            if *fp == *fa {
                if contains_name(type_params, cp) {
                    let inner = instance_inner(ca);
                    bind_param(cp, inner, subs)
                } else {
                    Ok(())
                }
            } else {
                unify_eq(param, arg)
            }
        },
        _ => unify_eq(param, arg),
    }
}


/// `apply_subs` on each type of a list.
fn apply_subs_all(ts: &Vec<Ty>, subs: &Substitutions) -> (r: Vec<Ty>)
    ensures
        tys_view(r@) == spec_apply_subs_seq(tys_view(ts@), subs@),
    decreases ts@, 0nat,
{
    let mut out: Vec<Ty> = Vec::new();
    let mut i: usize = 0;
    while i < ts.len()
        invariant
            i <= ts@.len(),
            out@.len() == i,
            forall|j: int|
                0 <= j < i ==> (#[trigger] out@[j])@ == spec_apply_subs(ts@[j]@, subs@),
        decreases ts@.len() - i,
    {
        proof {
            assert(decreases_to!(ts@ => ts@[i as int]));
        }
        let t = apply_subs(&ts[i], subs);
        out.push(t);
        i += 1;
    }
    assert(tys_view(out@) =~= spec_apply_subs_seq(tys_view(ts@), subs@));
    out
}

/// Replaces every type parameter (`Var`) and interface parameter
/// (`Interface`) that `subs` binds by its binding, recursively through
/// generics, functions, actions, tuples, containers, channels and
/// parametric structs.
pub fn apply_subs(ty: &Ty, subs: &Substitutions) -> (r: Ty)
    ensures
        r@ == spec_apply_subs(ty@, subs@),
    decreases ty, 1nat,
{
    proof {
        lemma_ty_view(*ty);
    }
    match ty {
        Ty::Var(name) => match subs.get(name) {
            Some(concrete) => ty_clone(concrete),
            None => ty_clone(ty),
        },
        Ty::Interface(name) => match subs.get(name) {
            Some(concrete) => ty_clone(concrete),
            None => ty_clone(ty),
        },
        Ty::Generic(name, args) => Ty::Generic(string_clone(name), apply_subs_all(args, subs)),
        Ty::Function(ps, ret) => Ty::Function(
            apply_subs_all(ps, subs),
            Box::new(apply_subs(ret, subs)),
        ),
        Ty::Action(ps, ret) => Ty::Action(apply_subs_all(ps, subs), Box::new(apply_subs(ret, subs))),
        Ty::Tuple(elems) => Ty::Tuple(apply_subs_all(elems, subs)),
        Ty::List(e) => Ty::List(Box::new(apply_subs(e, subs))),
        Ty::Array(e) => Ty::Array(Box::new(apply_subs(e, subs))),
        Ty::Range(e) => Ty::Range(Box::new(apply_subs(e, subs))),
        Ty::Dict(k, v) => Ty::Dict(Box::new(apply_subs(k, subs)), Box::new(apply_subs(v, subs))),
        Ty::SetOf(e) => Ty::SetOf(Box::new(apply_subs(e, subs))),
        Ty::Tensor(e) => Ty::Tensor(Box::new(apply_subs(e, subs))),
        Ty::Sender(e) => Ty::Sender(Box::new(apply_subs(e, subs))),
        Ty::Receiver(e) => Ty::Receiver(Box::new(apply_subs(e, subs))),
        Ty::ReceiverFactory(e) => Ty::ReceiverFactory(Box::new(apply_subs(e, subs))),
        Ty::Struct(StructKey::Generic(name, args)) => {
            let k = StructKey::Generic(string_clone(name), apply_subs_all(args, subs));
            proof {
                lemma_ty_view(Ty::Struct(k));
            }
            Ty::Struct(k)
        },
        _ => ty_clone(ty),
    }
}

} // verus!
