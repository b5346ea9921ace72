//! Laws of unification and substitution.

use vstd::prelude::*;

use crate::generics::{
    SpecSubs, UnifyCtx, spec_apply_subs, spec_apply_subs_seq, spec_bind, spec_normalize_refined,
    spec_unify_one, spec_unify_seq,
};
use crate::subst::lemma_submap_trans;
use crate::ty::{SpecStructKey, SpecTy};

verus! {

/// Unifying one pair never removes or changes a binding that was already
/// there, whatever the verdict.
pub proof fn law_unify_one_keeps_bindings(p: SpecTy, a: SpecTy, ctx: UnifyCtx, subs: SpecSubs)
    ensures
        subs.submap_of(spec_unify_one(p, a, ctx, subs).0),
    decreases p,
{
    match p {
        SpecTy::Generic(n, ps) => match a {
            SpecTy::Generic(m, qs) => {
                if n == m && ps.len() == qs.len() {
                    law_unify_seq_keeps_bindings(ps, qs, ctx, subs);
                }
            },
            SpecTy::Dict(ak, av) => {
                if n == "Dict"@ && ps.len() == 2 {
                    law_unify_one_keeps_bindings(ps[0], *ak, ctx, subs);
                    let r = spec_unify_one(ps[0], *ak, ctx, subs);
                    law_unify_one_keeps_bindings(ps[1], *av, ctx, r.0);
                    lemma_submap_trans(subs, r.0, spec_unify_one(ps[1], *av, ctx, r.0).0);
                }
            },
            SpecTy::SetOf(x) => {
                if n == "Set"@ && ps.len() == 1 {
                    law_unify_one_keeps_bindings(ps[0], *x, ctx, subs);
                }
            },
            SpecTy::Struct(SpecStructKey::Instance(fam, c)) => {
                if n == fam && ps.len() == 1 {
                    law_unify_one_keeps_bindings(
                        ps[0],
                        crate::generics::spec_instance_inner(c),
                        ctx,
                        subs,
                    );
                }
            },
            _ => {},
        },
        SpecTy::List(x) => if let SpecTy::List(y) = a {
            law_unify_one_keeps_bindings(*x, *y, ctx, subs);
        },
        SpecTy::Array(x) => if let SpecTy::Array(y) = a {
            law_unify_one_keeps_bindings(*x, *y, ctx, subs);
        },
        SpecTy::Range(x) => if let SpecTy::Range(y) = a {
            law_unify_one_keeps_bindings(*x, *y, ctx, subs);
        },
        SpecTy::Tensor(x) => if let SpecTy::Tensor(y) = a {
            law_unify_one_keeps_bindings(*x, *y, ctx, subs);
        },
        SpecTy::Sender(x) => if let SpecTy::Sender(y) = a {
            law_unify_one_keeps_bindings(*x, *y, ctx, subs);
        },
        SpecTy::Receiver(x) => if let SpecTy::Receiver(y) = a {
            law_unify_one_keeps_bindings(*x, *y, ctx, subs);
        },
        SpecTy::ReceiverFactory(x) => if let SpecTy::ReceiverFactory(y) = a {
            law_unify_one_keeps_bindings(*x, *y, ctx, subs);
        },
        SpecTy::SetOf(x) => match a {
            SpecTy::SetOf(y) => law_unify_one_keeps_bindings(*x, *y, ctx, subs),
            SpecTy::Generic(m, qs) => {
                if m == "Set"@ && qs.len() == 1 {
                    law_unify_one_keeps_bindings(*x, qs[0], ctx, subs);
                }
            },
            _ => {},
        },
        SpecTy::Dict(pk, pv) => match a {
            SpecTy::Dict(ak, av) => {
                law_unify_one_keeps_bindings(*pk, *ak, ctx, subs);
                let r = spec_unify_one(*pk, *ak, ctx, subs);
                law_unify_one_keeps_bindings(*pv, *av, ctx, r.0);
                lemma_submap_trans(subs, r.0, spec_unify_one(*pv, *av, ctx, r.0).0);
            },
            SpecTy::Generic(m, qs) => {
                if m == "Dict"@ && qs.len() == 2 {
                    law_unify_one_keeps_bindings(*pk, qs[0], ctx, subs);
                    let r = spec_unify_one(*pk, qs[0], ctx, subs);
                    law_unify_one_keeps_bindings(*pv, qs[1], ctx, r.0);
                    lemma_submap_trans(subs, r.0, spec_unify_one(*pv, qs[1], ctx, r.0).0);
                }
            },
            _ => {},
        },
        SpecTy::Tuple(ps) => if let SpecTy::Tuple(qs) = a {
            if ps.len() == qs.len() {
                law_unify_seq_keeps_bindings(ps, qs, ctx, subs);
            }
        },
        _ => {},
    }
}

/// Unifying a list of pairs never removes or changes a binding that was
/// already there, whatever the verdict.
pub proof fn law_unify_seq_keeps_bindings(
    ps: Seq<SpecTy>,
    qs: Seq<SpecTy>,
    ctx: UnifyCtx,
    subs: SpecSubs,
)
    ensures
        subs.submap_of(spec_unify_seq(ps, qs, ctx, subs).0),
    decreases ps,
{
    if ps.len() != 0 && qs.len() != 0 {
        law_unify_one_keeps_bindings(ps[0], qs[0], ctx, subs);
        let r = spec_unify_one(ps[0], qs[0], ctx, subs);
        if r.1 is Ok {
            law_unify_seq_keeps_bindings(ps.drop_first(), qs.drop_first(), ctx, r.0);
            lemma_submap_trans(
                subs,
                r.0,
                spec_unify_seq(ps.drop_first(), qs.drop_first(), ctx, r.0).0,
            );
        }
    }
}


/// Every name bound in `after` and not in `before` is among `tps`.
pub open spec fn spec_adds_only(before: SpecSubs, after: SpecSubs, tps: Seq<Seq<char>>) -> bool {
    forall|k: Seq<char>| #[trigger] after.contains_key(k) ==> before.contains_key(k) || tps.contains(k)
}

proof fn lemma_adds_only_trans(tps: Seq<Seq<char>>, a: SpecSubs, b: SpecSubs, c: SpecSubs)
    requires
        spec_adds_only(a, b, tps),
        spec_adds_only(b, c, tps),
    ensures
        spec_adds_only(a, c, tps),
{
    assert forall|k: Seq<char>| #[trigger] c.contains_key(k) implies a.contains_key(k) || tps.contains(k) by {
        if !b.contains_key(k) {
        } else {
            assert(b.contains_key(k));
        }
    }
}

/// Unifying one pair binds nothing but type parameters: every name that the
/// resulting substitution holds and the earlier one did not is one of the
/// context's type parameters, whatever the verdict.
pub proof fn law_unify_one_binds_only_params(p: SpecTy, a: SpecTy, ctx: UnifyCtx, subs: SpecSubs)
    ensures
        spec_adds_only(subs, spec_unify_one(p, a, ctx, subs).0, ctx.tps),
    decreases p,
{
    match p {
        SpecTy::Generic(n, ps) => match a {
            SpecTy::Generic(m, qs) => {
                if n == m && ps.len() == qs.len() {
                    law_unify_seq_binds_only_params(ps, qs, ctx, subs);
                }
            },
            SpecTy::Dict(ak, av) => {
                if n == "Dict"@ && ps.len() == 2 {
                    law_unify_one_binds_only_params(ps[0], *ak, ctx, subs);
                    let r = spec_unify_one(ps[0], *ak, ctx, subs);
                    law_unify_one_binds_only_params(ps[1], *av, ctx, r.0);
                    lemma_adds_only_trans(ctx.tps, subs, r.0, spec_unify_one(ps[1], *av, ctx, r.0).0);
                }
            },
            SpecTy::SetOf(x) => {
                if n == "Set"@ && ps.len() == 1 {
                    law_unify_one_binds_only_params(ps[0], *x, ctx, subs);
                }
            },
            SpecTy::Struct(SpecStructKey::Instance(fam, c)) => {
                if n == fam && ps.len() == 1 {
                    law_unify_one_binds_only_params(
                        ps[0],
                        crate::generics::spec_instance_inner(c),
                        ctx,
                        subs,
                    );
                }
            },
            _ => {},
        },
        SpecTy::List(x) => if let SpecTy::List(y) = a {
            law_unify_one_binds_only_params(*x, *y, ctx, subs);
        },
        SpecTy::Array(x) => if let SpecTy::Array(y) = a {
            law_unify_one_binds_only_params(*x, *y, ctx, subs);
        },
        SpecTy::Range(x) => if let SpecTy::Range(y) = a {
            law_unify_one_binds_only_params(*x, *y, ctx, subs);
        },
        SpecTy::Tensor(x) => if let SpecTy::Tensor(y) = a {
            law_unify_one_binds_only_params(*x, *y, ctx, subs);
        },
        SpecTy::Sender(x) => if let SpecTy::Sender(y) = a {
            law_unify_one_binds_only_params(*x, *y, ctx, subs);
        },
        SpecTy::Receiver(x) => if let SpecTy::Receiver(y) = a {
            law_unify_one_binds_only_params(*x, *y, ctx, subs);
        },
        SpecTy::ReceiverFactory(x) => if let SpecTy::ReceiverFactory(y) = a {
            law_unify_one_binds_only_params(*x, *y, ctx, subs);
        },
        SpecTy::SetOf(x) => match a {
            SpecTy::SetOf(y) => law_unify_one_binds_only_params(*x, *y, ctx, subs),
            SpecTy::Generic(m, qs) => {
                if m == "Set"@ && qs.len() == 1 {
                    law_unify_one_binds_only_params(*x, qs[0], ctx, subs);
                }
            },
            _ => {},
        },
        SpecTy::Dict(pk, pv) => match a {
            SpecTy::Dict(ak, av) => {
                law_unify_one_binds_only_params(*pk, *ak, ctx, subs);
                let r = spec_unify_one(*pk, *ak, ctx, subs);
                law_unify_one_binds_only_params(*pv, *av, ctx, r.0);
                lemma_adds_only_trans(ctx.tps, subs, r.0, spec_unify_one(*pv, *av, ctx, r.0).0);
            },
            SpecTy::Generic(m, qs) => {
                if m == "Dict"@ && qs.len() == 2 {
                    law_unify_one_binds_only_params(*pk, qs[0], ctx, subs);
                    let r = spec_unify_one(*pk, qs[0], ctx, subs);
                    law_unify_one_binds_only_params(*pv, qs[1], ctx, r.0);
                    lemma_adds_only_trans(ctx.tps, subs, r.0, spec_unify_one(*pv, qs[1], ctx, r.0).0);
                }
            },
            _ => {},
        },
        SpecTy::Tuple(ps) => if let SpecTy::Tuple(qs) = a {
            if ps.len() == qs.len() {
                law_unify_seq_binds_only_params(ps, qs, ctx, subs);
            }
        },
        _ => {},
    }
}

/// Unifying a list of pairs binds nothing but type parameters, whatever
/// the verdict.
pub proof fn law_unify_seq_binds_only_params(
    ps: Seq<SpecTy>,
    qs: Seq<SpecTy>,
    ctx: UnifyCtx,
    subs: SpecSubs,
)
    ensures
        spec_adds_only(subs, spec_unify_seq(ps, qs, ctx, subs).0, ctx.tps),
    decreases ps,
{
    if ps.len() != 0 && qs.len() != 0 {
        law_unify_one_binds_only_params(ps[0], qs[0], ctx, subs);
        let r = spec_unify_one(ps[0], qs[0], ctx, subs);
        if r.1 is Ok {
            law_unify_seq_binds_only_params(ps.drop_first(), qs.drop_first(), ctx, r.0);
            lemma_adds_only_trans(ctx.tps, 
                subs,
                r.0,
                spec_unify_seq(ps.drop_first(), qs.drop_first(), ctx, r.0).0,
            );
        }
    }
}


/// No type parameter or interface parameter occurs in the type.
pub open spec fn spec_ground(t: SpecTy) -> bool
    decreases t,
{
    match t {
        SpecTy::Var(_) => false,
        SpecTy::Interface(_) => false,
        SpecTy::Struct(SpecStructKey::Generic(_, args)) => forall|i: int|
            0 <= i < args.len() ==> spec_ground(#[trigger] args[i]),
        SpecTy::Generic(_, args) => forall|i: int|
            0 <= i < args.len() ==> spec_ground(#[trigger] args[i]),
        SpecTy::Tuple(args) => forall|i: int|
            0 <= i < args.len() ==> spec_ground(#[trigger] args[i]),
        SpecTy::Function(args, r) => spec_ground(*r) && forall|i: int|
            0 <= i < args.len() ==> spec_ground(#[trigger] args[i]),
        SpecTy::Action(args, r) => spec_ground(*r) && forall|i: int|
            0 <= i < args.len() ==> spec_ground(#[trigger] args[i]),
        SpecTy::OverloadSet { overloads, .. } => forall|i: int|
            0 <= i < overloads.len() ==> spec_ground(#[trigger] overloads[i]),
        SpecTy::List(e) => spec_ground(*e),
        SpecTy::Array(e) => spec_ground(*e),
        SpecTy::Range(e) => spec_ground(*e),
        SpecTy::SetOf(e) => spec_ground(*e),
        SpecTy::Tensor(e) => spec_ground(*e),
        SpecTy::Sender(e) => spec_ground(*e),
        SpecTy::Receiver(e) => spec_ground(*e),
        SpecTy::ReceiverFactory(e) => spec_ground(*e),
        SpecTy::Dict(k, v) => spec_ground(*k) && spec_ground(*v),
        _ => true,
    }
}

/// A substitution leaves a type without parameters unchanged.
pub proof fn law_apply_subs_ground(t: SpecTy, subs: SpecSubs)
    requires
        spec_ground(t),
    ensures
        spec_apply_subs(t, subs) == t,
    decreases t,
{
    match t {
        SpecTy::Struct(SpecStructKey::Generic(n, args)) => {
            lemma_apply_seq_ground(args, subs);
        },
        SpecTy::Generic(n, args) => {
            lemma_apply_seq_ground(args, subs);
        },
        SpecTy::Tuple(args) => {
            lemma_apply_seq_ground(args, subs);
        },
        SpecTy::Function(args, r) => {
            lemma_apply_seq_ground(args, subs);
            law_apply_subs_ground(*r, subs);
        },
        SpecTy::Action(args, r) => {
            lemma_apply_seq_ground(args, subs);
            law_apply_subs_ground(*r, subs);
        },
        SpecTy::List(e) => law_apply_subs_ground(*e, subs),
        SpecTy::Array(e) => law_apply_subs_ground(*e, subs),
        SpecTy::Range(e) => law_apply_subs_ground(*e, subs),
        SpecTy::SetOf(e) => law_apply_subs_ground(*e, subs),
        SpecTy::Tensor(e) => law_apply_subs_ground(*e, subs),
        SpecTy::Sender(e) => law_apply_subs_ground(*e, subs),
        SpecTy::Receiver(e) => law_apply_subs_ground(*e, subs),
        SpecTy::ReceiverFactory(e) => law_apply_subs_ground(*e, subs),
        SpecTy::Dict(k, v) => {
            law_apply_subs_ground(*k, subs);
            law_apply_subs_ground(*v, subs);
        },
        _ => {},
    }
}

proof fn lemma_apply_seq_ground(ts: Seq<SpecTy>, subs: SpecSubs)
    requires
        forall|i: int| 0 <= i < ts.len() ==> spec_ground(#[trigger] ts[i]),
    ensures
        spec_apply_subs_seq(ts, subs) == ts,
    decreases ts,
{
    assert forall|i: int| 0 <= i < ts.len() implies #[trigger] spec_apply_subs_seq(ts, subs)[i]
        == ts[i] by {
        law_apply_subs_ground(ts[i], subs);
    }
    assert(spec_apply_subs_seq(ts, subs) =~= ts);
}

/// No parameter bound in `subs` occurs in `t` where substitution reaches.
pub open spec fn spec_free_of(t: SpecTy, subs: SpecSubs) -> bool
    decreases t,
{
    match t {
        SpecTy::Var(n) => !subs.contains_key(n),
        SpecTy::Interface(n) => !subs.contains_key(n),
        SpecTy::Struct(SpecStructKey::Generic(_, args)) => forall|i: int|
            0 <= i < args.len() ==> spec_free_of(#[trigger] args[i], subs),
        SpecTy::Generic(_, args) => forall|i: int| 0 <= i < args.len() ==> spec_free_of(#[trigger] args[i], subs),
        SpecTy::Tuple(args) => forall|i: int| 0 <= i < args.len() ==> spec_free_of(#[trigger] args[i], subs),
        SpecTy::Function(args, r) => spec_free_of(*r, subs) && forall|i: int|
            0 <= i < args.len() ==> spec_free_of(#[trigger] args[i], subs),
        SpecTy::Action(args, r) => spec_free_of(*r, subs) && forall|i: int|
            0 <= i < args.len() ==> spec_free_of(#[trigger] args[i], subs),
        SpecTy::List(e) => spec_free_of(*e, subs),
        SpecTy::Array(e) => spec_free_of(*e, subs),
        SpecTy::Range(e) => spec_free_of(*e, subs),
        SpecTy::SetOf(e) => spec_free_of(*e, subs),
        SpecTy::Tensor(e) => spec_free_of(*e, subs),
        SpecTy::Sender(e) => spec_free_of(*e, subs),
        SpecTy::Receiver(e) => spec_free_of(*e, subs),
        SpecTy::ReceiverFactory(e) => spec_free_of(*e, subs),
        SpecTy::Dict(k, v) => spec_free_of(*k, subs) && spec_free_of(*v, subs),
        _ => true,
    }
}

/// A substitution leaves a type in which none of its parameters occurs
/// unchanged.
pub proof fn law_apply_subs_free_unchanged(t: SpecTy, subs: SpecSubs)
    requires
        spec_free_of(t, subs),
    ensures
        spec_apply_subs(t, subs) == t,
    decreases t,
{
    match t {
        SpecTy::Struct(SpecStructKey::Generic(n, args)) => lemma_apply_seq_free(args, subs),
        SpecTy::Generic(n, args) => lemma_apply_seq_free(args, subs),
        SpecTy::Tuple(args) => lemma_apply_seq_free(args, subs),
        SpecTy::Function(args, r) => {
            lemma_apply_seq_free(args, subs);
            law_apply_subs_free_unchanged(*r, subs);
        },
        SpecTy::Action(args, r) => {
            lemma_apply_seq_free(args, subs);
            law_apply_subs_free_unchanged(*r, subs);
        },
        SpecTy::List(e) => law_apply_subs_free_unchanged(*e, subs),
        SpecTy::Array(e) => law_apply_subs_free_unchanged(*e, subs),
        SpecTy::Range(e) => law_apply_subs_free_unchanged(*e, subs),
        SpecTy::SetOf(e) => law_apply_subs_free_unchanged(*e, subs),
        SpecTy::Tensor(e) => law_apply_subs_free_unchanged(*e, subs),
        SpecTy::Sender(e) => law_apply_subs_free_unchanged(*e, subs),
        SpecTy::Receiver(e) => law_apply_subs_free_unchanged(*e, subs),
        SpecTy::ReceiverFactory(e) => law_apply_subs_free_unchanged(*e, subs),
        SpecTy::Dict(k, v) => {
            law_apply_subs_free_unchanged(*k, subs);
            law_apply_subs_free_unchanged(*v, subs);
        },
        _ => {},
    }
}

proof fn lemma_apply_seq_free(ts: Seq<SpecTy>, subs: SpecSubs)
    requires
        forall|i: int| 0 <= i < ts.len() ==> spec_free_of(#[trigger] ts[i], subs),
    ensures
        spec_apply_subs_seq(ts, subs) == ts,
    decreases ts,
{
    assert forall|i: int| 0 <= i < ts.len() implies #[trigger] spec_apply_subs_seq(ts, subs)[i] == ts[i] by {
        law_apply_subs_free_unchanged(ts[i], subs);
    }
    assert(spec_apply_subs_seq(ts, subs) =~= ts);
}

/// No bound value mentions a bound parameter.
pub open spec fn spec_values_free(subs: SpecSubs) -> bool {
    forall|k: Seq<char>| #[trigger] subs.contains_key(k) ==> spec_free_of(subs[k], subs)
}

/// When no bound value mentions a bound parameter, a substituted type
/// mentions none either.
proof fn lemma_apply_subs_frees(t: SpecTy, subs: SpecSubs)
    requires
        spec_values_free(subs),
    ensures
        spec_free_of(spec_apply_subs(t, subs), subs),
    decreases t,
{
    match t {
        SpecTy::Var(n) => {
            if subs.contains_key(n) {
                assert(spec_free_of(subs[n], subs));
                assert(spec_apply_subs(t, subs) == subs[n]);
                assert(spec_free_of(spec_apply_subs(t, subs), subs));
            } else {
                assert(spec_apply_subs(t, subs) == t);
                assert(spec_free_of(t, subs));
            }
        },
        SpecTy::Interface(n) => {
            if subs.contains_key(n) {
                assert(spec_free_of(subs[n], subs));
                assert(spec_apply_subs(t, subs) == subs[n]);
            } else {
                assert(spec_apply_subs(t, subs) == t);
            }
        },
        SpecTy::Struct(SpecStructKey::Generic(n, args)) => {
            lemma_apply_seq_frees(args, subs);
            assert(spec_apply_subs(t, subs) == SpecTy::Struct(SpecStructKey::Generic(n, spec_apply_subs_seq(args, subs))));
        },
        SpecTy::Generic(n, args) => {
            lemma_apply_seq_frees(args, subs);
            assert(spec_apply_subs(t, subs) == SpecTy::Generic(n, spec_apply_subs_seq(args, subs)));
        },
        SpecTy::Tuple(args) => {
            lemma_apply_seq_frees(args, subs);
            assert(spec_apply_subs(t, subs) == SpecTy::Tuple(spec_apply_subs_seq(args, subs)));
        },
        SpecTy::Function(args, r) => {
            lemma_apply_seq_frees(args, subs);
            lemma_apply_subs_frees(*r, subs);
            let q = spec_apply_subs_seq(args, subs);
            assert(spec_apply_subs(t, subs) == SpecTy::Function(q, Box::new(spec_apply_subs(*r, subs))));
            assert(forall|i: int| 0 <= i < q.len() ==> spec_free_of(#[trigger] q[i], subs));
        },
        SpecTy::Action(args, r) => {
            lemma_apply_seq_frees(args, subs);
            lemma_apply_subs_frees(*r, subs);
            let q = spec_apply_subs_seq(args, subs);
            assert(spec_apply_subs(t, subs) == SpecTy::Action(q, Box::new(spec_apply_subs(*r, subs))));
            assert(forall|i: int| 0 <= i < q.len() ==> spec_free_of(#[trigger] q[i], subs));
        },
        SpecTy::List(e) => {
            lemma_apply_subs_frees(*e, subs);
            assert(spec_free_of(spec_apply_subs(t, subs), subs));
        },
        SpecTy::Array(e) => {
            lemma_apply_subs_frees(*e, subs);
            assert(spec_free_of(spec_apply_subs(t, subs), subs));
        },
        SpecTy::Range(e) => {
            lemma_apply_subs_frees(*e, subs);
            assert(spec_free_of(spec_apply_subs(t, subs), subs));
        },
        SpecTy::SetOf(e) => {
            lemma_apply_subs_frees(*e, subs);
            assert(spec_free_of(spec_apply_subs(t, subs), subs));
        },
        SpecTy::Tensor(e) => {
            lemma_apply_subs_frees(*e, subs);
            assert(spec_free_of(spec_apply_subs(t, subs), subs));
        },
        SpecTy::Sender(e) => {
            lemma_apply_subs_frees(*e, subs);
            assert(spec_free_of(spec_apply_subs(t, subs), subs));
        },
        SpecTy::Receiver(e) => {
            lemma_apply_subs_frees(*e, subs);
            assert(spec_free_of(spec_apply_subs(t, subs), subs));
        },
        SpecTy::ReceiverFactory(e) => {
            lemma_apply_subs_frees(*e, subs);
            assert(spec_free_of(spec_apply_subs(t, subs), subs));
        },
        SpecTy::Dict(k, v) => {
            lemma_apply_subs_frees(*k, subs);
            lemma_apply_subs_frees(*v, subs);
        },
        _ => {
            assert(spec_free_of(spec_apply_subs(t, subs), subs));
        },
    }
}

proof fn lemma_apply_seq_frees(ts: Seq<SpecTy>, subs: SpecSubs)
    requires
        spec_values_free(subs),
    ensures
        forall|i: int|
            0 <= i < ts.len() ==> spec_free_of(#[trigger] spec_apply_subs_seq(ts, subs)[i], subs),
    decreases ts,
{
    assert forall|i: int| 0 <= i < ts.len() implies spec_free_of(#[trigger] spec_apply_subs_seq(ts, subs)[i], subs) by {
        lemma_apply_subs_frees(ts[i], subs);
    }
}

/// Substitution is idempotent when no bound value mentions a bound
/// parameter: substituting a second time changes nothing.
pub proof fn law_apply_subs_idempotent(t: SpecTy, subs: SpecSubs)
    requires
        spec_values_free(subs),
    ensures
        spec_apply_subs(spec_apply_subs(t, subs), subs) == spec_apply_subs(t, subs),
{
    lemma_apply_subs_frees(t, subs);
    law_apply_subs_free_unchanged(spec_apply_subs(t, subs), subs);
}

/// The empty substitution changes nothing.
pub proof fn law_apply_subs_empty(t: SpecTy)
    ensures
        spec_apply_subs(t, Map::empty()) == t,
    decreases t,
{
    match t {
        SpecTy::Struct(SpecStructKey::Generic(n, args)) => lemma_apply_seq_empty(args),
        SpecTy::Generic(n, args) => lemma_apply_seq_empty(args),
        SpecTy::Tuple(args) => lemma_apply_seq_empty(args),
        SpecTy::Function(args, r) => {
            lemma_apply_seq_empty(args);
            law_apply_subs_empty(*r);
        },
        SpecTy::Action(args, r) => {
            lemma_apply_seq_empty(args);
            law_apply_subs_empty(*r);
        },
        SpecTy::List(e) => law_apply_subs_empty(*e),
        SpecTy::Array(e) => law_apply_subs_empty(*e),
        SpecTy::Range(e) => law_apply_subs_empty(*e),
        SpecTy::SetOf(e) => law_apply_subs_empty(*e),
        SpecTy::Tensor(e) => law_apply_subs_empty(*e),
        SpecTy::Sender(e) => law_apply_subs_empty(*e),
        SpecTy::Receiver(e) => law_apply_subs_empty(*e),
        SpecTy::ReceiverFactory(e) => law_apply_subs_empty(*e),
        SpecTy::Dict(k, v) => {
            law_apply_subs_empty(*k);
            law_apply_subs_empty(*v);
        },
        _ => {},
    }
}

proof fn lemma_apply_seq_empty(ts: Seq<SpecTy>)
    ensures
        spec_apply_subs_seq(ts, Map::empty()) == ts,
    decreases ts,
{
    assert forall|i: int| 0 <= i < ts.len() implies #[trigger] spec_apply_subs_seq(
        ts,
        Map::empty(),
    )[i] == ts[i] by {
        law_apply_subs_empty(ts[i]);
    }
    assert(spec_apply_subs_seq(ts, Map::empty()) =~= ts);
}


/// The pairs `(param, arg)` on which a successful unification binds every
/// parameter of `param` to the part of `arg` it stands for:
/// - every variable of `param` that unification meets is a type
///   parameter, and every interface it meets is a parameter whose
///   argument is not a refined type delegating that interface;
/// - no argument is met in one of the mixed forms (`Dict` against a
///   generic `Dict`, `Set` against a generic `Set`, a generic family
///   against one of its instances, two instances of one family);
/// - a parameter that unification compares by equality holds no
///   parameter at all.
pub open spec fn spec_aligned(p: SpecTy, a: SpecTy, ctx: UnifyCtx) -> bool
    decreases p,
{
    match p {
        SpecTy::Var(n) => ctx.tps.contains(n),
        SpecTy::Interface(n) => ctx.tps.contains(n) && spec_normalize_refined(a, n, ctx.refines)
            == a,
        SpecTy::Generic(n, ps) => match a {
            SpecTy::Generic(m, qs) => n == m && ps.len() == qs.len() ==> forall|i: int|
                0 <= i < ps.len() ==> spec_aligned(#[trigger] ps[i], qs[i], ctx),
            SpecTy::Dict(_, _) => !(n == "Dict"@ && ps.len() == 2),
            SpecTy::SetOf(_) => !(n == "Set"@ && ps.len() == 1),
            SpecTy::Struct(SpecStructKey::Instance(fam, _)) => !(n == fam && ps.len() == 1),
            _ => true,
        },
        SpecTy::Tuple(ps) => match a {
            SpecTy::Tuple(qs) => ps.len() == qs.len() ==> forall|i: int|
                0 <= i < ps.len() ==> spec_aligned(#[trigger] ps[i], qs[i], ctx),
            _ => true,
        },
        SpecTy::List(x) => match a {
            SpecTy::List(y) => spec_aligned(*x, *y, ctx),
            _ => true,
        },
        SpecTy::Array(x) => match a {
            SpecTy::Array(y) => spec_aligned(*x, *y, ctx),
            _ => true,
        },
        SpecTy::Range(x) => match a {
            SpecTy::Range(y) => spec_aligned(*x, *y, ctx),
            _ => true,
        },
        SpecTy::Tensor(x) => match a {
            SpecTy::Tensor(y) => spec_aligned(*x, *y, ctx),
            _ => true,
        },
        SpecTy::Sender(x) => match a {
            SpecTy::Sender(y) => spec_aligned(*x, *y, ctx),
            _ => true,
        },
        SpecTy::Receiver(x) => match a {
            SpecTy::Receiver(y) => spec_aligned(*x, *y, ctx),
            _ => true,
        },
        SpecTy::ReceiverFactory(x) => match a {
            SpecTy::ReceiverFactory(y) => spec_aligned(*x, *y, ctx),
            _ => true,
        },
        SpecTy::SetOf(x) => match a {
            SpecTy::SetOf(y) => spec_aligned(*x, *y, ctx),
            SpecTy::Generic(m, qs) => !(m == "Set"@ && qs.len() == 1),
            _ => true,
        },
        SpecTy::Dict(pk, pv) => match a {
            SpecTy::Dict(ak, av) => spec_aligned(*pk, *ak, ctx) && spec_aligned(*pv, *av, ctx),
            SpecTy::Generic(m, qs) => !(m == "Dict"@ && qs.len() == 2),
            _ => true,
        },
        SpecTy::Struct(SpecStructKey::Instance(fp, _)) => match a {
            SpecTy::Struct(SpecStructKey::Instance(fa, _)) => fp != fa,
            _ => true,
        },
        _ => spec_ground(p),
    }
}

proof fn lemma_bind_ok(n: Seq<char>, t: SpecTy, subs: SpecSubs, big: SpecSubs)
    requires
        spec_bind(n, t, subs).1 is Ok,
        spec_bind(n, t, subs).0.submap_of(big),
    ensures
        big.contains_key(n),
        big[n] == t,
{
    let s1 = spec_bind(n, t, subs).0;
    assert(s1.contains_key(n));
    assert(s1[n] == t);
    assert(big.contains_key(n) && big[n] == s1[n]);
}

/// Soundness of unification: when `param` and `arg` are aligned and they
/// unify, applying the resulting substitution (or any substitution that
/// extends it) to `param` gives back `arg`.
pub proof fn law_unify_one_reconstructs(
    p: SpecTy,
    a: SpecTy,
    ctx: UnifyCtx,
    subs: SpecSubs,
    big: SpecSubs,
)
    requires
        spec_aligned(p, a, ctx),
        spec_unify_one(p, a, ctx, subs).1 is Ok,
        spec_unify_one(p, a, ctx, subs).0.submap_of(big),
    ensures
        spec_apply_subs(p, big) == a,
    decreases p,
{
    match p {
        SpecTy::Var(n) => lemma_bind_ok(n, a, subs, big),
        SpecTy::Interface(n) => lemma_bind_ok(n, a, subs, big),
        SpecTy::Generic(n, ps) => match a {
            SpecTy::Generic(m, qs) => {
                law_unify_seq_reconstructs(ps, qs, ctx, subs, big);
                assert(spec_apply_subs_seq(ps, big) =~= qs);
            },
            _ => {},
        },
        SpecTy::Tuple(ps) => match a {
            SpecTy::Tuple(qs) => {
                law_unify_seq_reconstructs(ps, qs, ctx, subs, big);
                assert(spec_apply_subs_seq(ps, big) =~= qs);
            },
            _ => {},
        },
        SpecTy::List(x) => if let SpecTy::List(y) = a {
            law_unify_one_reconstructs(*x, *y, ctx, subs, big);
        },
        SpecTy::Array(x) => if let SpecTy::Array(y) = a {
            law_unify_one_reconstructs(*x, *y, ctx, subs, big);
        },
        SpecTy::Range(x) => if let SpecTy::Range(y) = a {
            law_unify_one_reconstructs(*x, *y, ctx, subs, big);
        },
        SpecTy::Tensor(x) => if let SpecTy::Tensor(y) = a {
            law_unify_one_reconstructs(*x, *y, ctx, subs, big);
        },
        SpecTy::Sender(x) => if let SpecTy::Sender(y) = a {
            law_unify_one_reconstructs(*x, *y, ctx, subs, big);
        },
        SpecTy::Receiver(x) => if let SpecTy::Receiver(y) = a {
            law_unify_one_reconstructs(*x, *y, ctx, subs, big);
        },
        SpecTy::ReceiverFactory(x) => if let SpecTy::ReceiverFactory(y) = a {
            law_unify_one_reconstructs(*x, *y, ctx, subs, big);
        },
        SpecTy::SetOf(x) => if let SpecTy::SetOf(y) = a {
            law_unify_one_reconstructs(*x, *y, ctx, subs, big);
        },
        SpecTy::Dict(pk, pv) => if let SpecTy::Dict(ak, av) = a {
            let r = spec_unify_one(*pk, *ak, ctx, subs);
            let r2 = spec_unify_one(*pv, *av, ctx, r.0);
            law_unify_one_keeps_bindings(*pv, *av, ctx, r.0);
            lemma_submap_trans(r.0, r2.0, big);
            law_unify_one_reconstructs(*pk, *ak, ctx, subs, big);
            law_unify_one_reconstructs(*pv, *av, ctx, r.0, big);
        },
        SpecTy::Struct(SpecStructKey::Instance(_, _)) => {},
        _ => law_apply_subs_ground(p, big),
    }
}

/// Soundness of unification on lists of equal length: each aligned parameter,
/// under the resulting substitution (or any extension of it), gives back its argument.
pub proof fn law_unify_seq_reconstructs(
    ps: Seq<SpecTy>,
    qs: Seq<SpecTy>,
    ctx: UnifyCtx,
    subs: SpecSubs,
    big: SpecSubs,
)
    requires
        ps.len() == qs.len(),
        forall|i: int| 0 <= i < ps.len() ==> spec_aligned(#[trigger] ps[i], qs[i], ctx),
        spec_unify_seq(ps, qs, ctx, subs).1 is Ok,
        spec_unify_seq(ps, qs, ctx, subs).0.submap_of(big),
    ensures
        forall|i: int| 0 <= i < ps.len() ==> spec_apply_subs(#[trigger] ps[i], big) == qs[i],
    decreases ps,
{
    if ps.len() > 0 {
        let r = spec_unify_one(ps[0], qs[0], ctx, subs);
        let rest = spec_unify_seq(ps.drop_first(), qs.drop_first(), ctx, r.0);
        law_unify_seq_keeps_bindings(ps.drop_first(), qs.drop_first(), ctx, r.0);
        lemma_submap_trans(r.0, rest.0, big);
        law_unify_one_reconstructs(ps[0], qs[0], ctx, subs, big);
        assert forall|i: int| 0 <= i < ps.drop_first().len() implies spec_aligned(
            #[trigger] ps.drop_first()[i],
            qs.drop_first()[i],
            ctx,
        ) by {
            assert(ps.drop_first()[i] == ps[i + 1]);
        }
        law_unify_seq_reconstructs(ps.drop_first(), qs.drop_first(), ctx, r.0, big);
        assert forall|i: int| 0 <= i < ps.len() implies spec_apply_subs(#[trigger] ps[i], big)
            == qs[i] by {
            if i > 0 {
                assert(ps[i] == ps.drop_first()[i - 1]);
                assert(qs[i] == qs.drop_first()[i - 1]);
            }
        }
    }
}


/// A parameter type of the shape that generic signatures use: type
/// parameters of the context, primitives, and the list, array, range, set,
/// tensor, dictionary, tuple, channel and generic constructors (a generic
/// named neither `Dict` nor `Set`) over such types.
pub open spec fn spec_shaped_param(p: SpecTy, tps: Seq<Seq<char>>) -> bool
    decreases p,
{
    match p {
        SpecTy::Var(n) => tps.contains(n),
        SpecTy::Prim(_) => true,
        SpecTy::List(x) => spec_shaped_param(*x, tps),
        SpecTy::Array(x) => spec_shaped_param(*x, tps),
        SpecTy::Range(x) => spec_shaped_param(*x, tps),
        SpecTy::SetOf(x) => spec_shaped_param(*x, tps),
        SpecTy::Tensor(x) => spec_shaped_param(*x, tps),
        SpecTy::Sender(x) => spec_shaped_param(*x, tps),
        SpecTy::Receiver(x) => spec_shaped_param(*x, tps),
        SpecTy::ReceiverFactory(x) => spec_shaped_param(*x, tps),
        SpecTy::Dict(k, v) => spec_shaped_param(*k, tps) && spec_shaped_param(*v, tps),
        SpecTy::Tuple(ps) => forall|i: int| 0 <= i < ps.len() ==> spec_shaped_param(#[trigger] ps[i], tps),
        SpecTy::Generic(g, ps) => g != "Dict"@ && g != "Set"@ && forall|i: int|
            0 <= i < ps.len() ==> spec_shaped_param(#[trigger] ps[i], tps),
        _ => false,
    }
}

/// An argument type in which no instance of a struct family occurs where
/// unification walks.
pub open spec fn spec_no_instance(a: SpecTy) -> bool
    decreases a,
{
    match a {
        SpecTy::Struct(SpecStructKey::Instance(_, _)) => false,
        SpecTy::Generic(_, qs) => forall|i: int| 0 <= i < qs.len() ==> spec_no_instance(#[trigger] qs[i]),
        SpecTy::Tuple(qs) => forall|i: int| 0 <= i < qs.len() ==> spec_no_instance(#[trigger] qs[i]),
        SpecTy::List(x) => spec_no_instance(*x),
        SpecTy::Array(x) => spec_no_instance(*x),
        SpecTy::Range(x) => spec_no_instance(*x),
        SpecTy::SetOf(x) => spec_no_instance(*x),
        SpecTy::Tensor(x) => spec_no_instance(*x),
        SpecTy::Sender(x) => spec_no_instance(*x),
        SpecTy::Receiver(x) => spec_no_instance(*x),
        SpecTy::ReceiverFactory(x) => spec_no_instance(*x),
        SpecTy::Dict(k, v) => spec_no_instance(*k) && spec_no_instance(*v),
        _ => true,
    }
}

/// Nowhere does a set or dictionary parameter of `p` meet an argument that
/// spells it as a generic (`Set` of one type, `Dict` of two): the one
/// meeting where unification succeeds but substitution does not give the
/// argument back in its spelling.
pub open spec fn spec_no_spelling_clash(p: SpecTy, a: SpecTy) -> bool
    decreases p,
{
    match p {
        SpecTy::SetOf(x) => match a {
            SpecTy::SetOf(y) => spec_no_spelling_clash(*x, *y),
            SpecTy::Generic(m, qs) => !(m == "Set"@ && qs.len() == 1),
            _ => true,
        },
        SpecTy::Dict(pk, pv) => match a {
            SpecTy::Dict(ak, av) => spec_no_spelling_clash(*pk, *ak) && spec_no_spelling_clash(*pv, *av),
            SpecTy::Generic(m, qs) => !(m == "Dict"@ && qs.len() == 2),
            _ => true,
        },
        SpecTy::List(x) => match a {
            SpecTy::List(y) => spec_no_spelling_clash(*x, *y),
            _ => true,
        },
        SpecTy::Array(x) => match a {
            SpecTy::Array(y) => spec_no_spelling_clash(*x, *y),
            _ => true,
        },
        SpecTy::Range(x) => match a {
            SpecTy::Range(y) => spec_no_spelling_clash(*x, *y),
            _ => true,
        },
        SpecTy::Tensor(x) => match a {
            SpecTy::Tensor(y) => spec_no_spelling_clash(*x, *y),
            _ => true,
        },
        SpecTy::Sender(x) => match a {
            SpecTy::Sender(y) => spec_no_spelling_clash(*x, *y),
            _ => true,
        },
        SpecTy::Receiver(x) => match a {
            SpecTy::Receiver(y) => spec_no_spelling_clash(*x, *y),
            _ => true,
        },
        SpecTy::ReceiverFactory(x) => match a {
            SpecTy::ReceiverFactory(y) => spec_no_spelling_clash(*x, *y),
            _ => true,
        },
        SpecTy::Tuple(ps) => match a {
            SpecTy::Tuple(qs) => ps.len() == qs.len() ==> forall|i: int|
                0 <= i < ps.len() ==> spec_no_spelling_clash(#[trigger] ps[i], qs[i]),
            _ => true,
        },
        SpecTy::Generic(n, ps) => match a {
            SpecTy::Generic(m, qs) => n == m && ps.len() == qs.len() ==> forall|i: int|
                0 <= i < ps.len() ==> spec_no_spelling_clash(#[trigger] ps[i], qs[i]),
            _ => true,
        },
        _ => true,
    }
}

/// A shaped parameter and an argument without struct instances, where no
/// set or dictionary spelling clashes, are aligned.
proof fn lemma_shaped_aligned(p: SpecTy, a: SpecTy, ctx: UnifyCtx)
    requires
        spec_shaped_param(p, ctx.tps),
        spec_no_instance(a),
        spec_no_spelling_clash(p, a),
    ensures
        spec_aligned(p, a, ctx),
    decreases p,
{
    match p {
        SpecTy::List(x) => if let SpecTy::List(y) = a { lemma_shaped_aligned(*x, *y, ctx) },
        SpecTy::Array(x) => if let SpecTy::Array(y) = a { lemma_shaped_aligned(*x, *y, ctx) },
        SpecTy::Range(x) => if let SpecTy::Range(y) = a { lemma_shaped_aligned(*x, *y, ctx) },
        SpecTy::SetOf(x) => if let SpecTy::SetOf(y) = a { lemma_shaped_aligned(*x, *y, ctx) },
        SpecTy::Tensor(x) => if let SpecTy::Tensor(y) = a { lemma_shaped_aligned(*x, *y, ctx) },
        SpecTy::Sender(x) => if let SpecTy::Sender(y) = a { lemma_shaped_aligned(*x, *y, ctx) },
        SpecTy::Receiver(x) => if let SpecTy::Receiver(y) = a { lemma_shaped_aligned(*x, *y, ctx) },
        SpecTy::ReceiverFactory(x) => if let SpecTy::ReceiverFactory(y) = a { lemma_shaped_aligned(*x, *y, ctx) },
        SpecTy::Dict(k, v) => if let SpecTy::Dict(ak, av) = a {
            lemma_shaped_aligned(*k, *ak, ctx);
            lemma_shaped_aligned(*v, *av, ctx);
        },
        SpecTy::Tuple(ps) => if let SpecTy::Tuple(qs) = a {
            if ps.len() == qs.len() {
                assert forall|i: int| 0 <= i < ps.len() implies spec_aligned(#[trigger] ps[i], qs[i], ctx) by {
                    lemma_shaped_aligned(ps[i], qs[i], ctx);
                }
            }
        },
        SpecTy::Generic(n, ps) => if let SpecTy::Generic(m, qs) = a {
            if n == m && ps.len() == qs.len() {
                assert forall|i: int| 0 <= i < ps.len() implies spec_aligned(#[trigger] ps[i], qs[i], ctx) by {
                    lemma_shaped_aligned(ps[i], qs[i], ctx);
                }
            }
        },
        SpecTy::Prim(_) => {
            assert(spec_ground(p));
        },
        _ => {},
    }
}

/// Unification of two lists looks only at the pairs up to the shorter one.
proof fn lemma_unify_seq_prefix(ps: Seq<SpecTy>, qs: Seq<SpecTy>, ctx: UnifyCtx, subs: SpecSubs)
    ensures
        ({
            let n = if ps.len() <= qs.len() { ps.len() } else { qs.len() };
            spec_unify_seq(ps, qs, ctx, subs) == spec_unify_seq(ps.take(n as int), qs.take(n as int), ctx, subs)
        }),
    decreases ps,
{
    let n = if ps.len() <= qs.len() { ps.len() } else { qs.len() };
    if ps.len() == 0 || qs.len() == 0 {
        assert(ps.take(n as int).len() == 0);
    } else {
        let r = spec_unify_one(ps[0], qs[0], ctx, subs);
        lemma_unify_seq_prefix(ps.drop_first(), qs.drop_first(), ctx, r.0);
        assert(ps.take(n as int).drop_first() =~= ps.drop_first().take(n - 1));
        assert(qs.take(n as int).drop_first() =~= qs.drop_first().take(n - 1));
        assert(ps.take(n as int)[0] == ps[0]);
        assert(qs.take(n as int)[0] == qs[0]);
    }
}

/// Soundness of unification on signatures of the usual shape: when every
/// parameter is shaped, no argument holds a struct instance, and the lists
/// unify, each parameter up to the shorter list, under the resulting
/// substitution (or any extension of it), gives back its argument. The
/// one meeting left out is a set or dictionary parameter against an
/// argument that spells it as a generic (`Set`/`Dict`): it unifies, but
/// substitution gives the set or dictionary back in its own spelling.
pub proof fn law_unify_reconstructs_shaped(
    ps: Seq<SpecTy>,
    qs: Seq<SpecTy>,
    ctx: UnifyCtx,
    subs: SpecSubs,
    big: SpecSubs,
)
    requires
        forall|i: int| 0 <= i < ps.len() ==> spec_shaped_param(#[trigger] ps[i], ctx.tps),
        forall|i: int| 0 <= i < qs.len() ==> spec_no_instance(#[trigger] qs[i]),
        forall|i: int| 0 <= i < ps.len() && i < qs.len() ==> spec_no_spelling_clash(#[trigger] ps[i], qs[i]),
        spec_unify_seq(ps, qs, ctx, subs).1 is Ok,
        spec_unify_seq(ps, qs, ctx, subs).0.submap_of(big),
    ensures
        forall|i: int| 0 <= i < ps.len() && i < qs.len() ==> spec_apply_subs(#[trigger] ps[i], big) == qs[i],
{
    let n = if ps.len() <= qs.len() { ps.len() } else { qs.len() };
    let pt = ps.take(n as int);
    let qt = qs.take(n as int);
    lemma_unify_seq_prefix(ps, qs, ctx, subs);
    assert forall|i: int| 0 <= i < pt.len() implies spec_aligned(#[trigger] pt[i], qt[i], ctx) by {
        assert(pt[i] == ps[i] && qt[i] == qs[i]);
        lemma_shaped_aligned(ps[i], qs[i], ctx);
    }
    law_unify_seq_reconstructs(pt, qt, ctx, subs, big);
    assert forall|i: int| 0 <= i < ps.len() && i < qs.len() implies spec_apply_subs(#[trigger] ps[i], big) == qs[i] by {
        assert(pt[i] == ps[i] && qt[i] == qs[i]);
    }
}

} // verus!
