//! Smaller relations and operations on types used across inference:
//! return-type fitting, arm-type unification and back-propagation,
//! channel compatibility, registry names, reverse substitution
//! extraction and escape targets of channel sends.

use vstd::prelude::*;

use crate::text::{is_named, owned};
use crate::ty::{
    PrimTy, SpecStructKey, SpecTy, StructKey, Ty, key_name, lemma_ty_view, spec_key_name,
    string_clone, ty_clone, ty_eq, tys_view,
};

verus! {

// ── fits_return ─────────────────────────────────────────────────────

/// `actual` fits the declared type `declared` (directional): a variable
/// in `actual` is unconstrained; a `Result` whose first argument is a
/// variable is a divergent early return; an instance fits its family;
/// otherwise the two agree constructor by constructor, or are equal.
pub open spec fn spec_fits_return(actual: SpecTy, declared: SpecTy) -> bool
    decreases actual,
{
    match actual {
        SpecTy::Var(_) => true,
        SpecTy::Generic(n, xs) => if n == "Result"@ && xs.len() == 2 && xs[0] is Var {
            true
        } else {
            match declared {
                SpecTy::Generic(m, ys) => if n == m && xs.len() == ys.len() {
                    spec_fits_all(xs, ys)
                } else {
                    actual == declared
                },
                _ => actual == declared,
            }
        },
        SpecTy::Struct(SpecStructKey::Instance(f, _)) => match declared {
            SpecTy::Struct(SpecStructKey::Family(d)) => f == d || actual == declared,
            _ => actual == declared,
        },
        SpecTy::List(a) => match declared {
            SpecTy::List(b) => spec_fits_return(*a, *b),
            _ => actual == declared,
        },
        SpecTy::Array(a) => match declared {
            SpecTy::Array(b) => spec_fits_return(*a, *b),
            _ => actual == declared,
        },
        SpecTy::Range(a) => match declared {
            SpecTy::Range(b) => spec_fits_return(*a, *b),
            _ => actual == declared,
        },
        SpecTy::Sender(a) => match declared {
            SpecTy::Sender(b) => spec_fits_return(*a, *b),
            _ => actual == declared,
        },
        SpecTy::Receiver(a) => match declared {
            SpecTy::Receiver(b) => spec_fits_return(*a, *b),
            _ => actual == declared,
        },
        SpecTy::ReceiverFactory(a) => match declared {
            SpecTy::ReceiverFactory(b) => spec_fits_return(*a, *b),
            _ => actual == declared,
        },
        SpecTy::SetOf(a) => match declared {
            SpecTy::SetOf(b) => spec_fits_return(*a, *b),
            _ => actual == declared,
        },
        SpecTy::Dict(k1, v1) => match declared {
            SpecTy::Dict(k2, v2) => spec_fits_return(*k1, *k2) && spec_fits_return(*v1, *v2),
            _ => actual == declared,
        },
        _ => actual == declared,
    }
}

/// Every element of `xs` fits the element of `ys` at the same position.
pub open spec fn spec_fits_all(xs: Seq<SpecTy>, ys: Seq<SpecTy>) -> bool
    decreases xs,
{
    if xs.len() == 0 || ys.len() == 0 {
        true
    } else {
        spec_fits_return(xs[0], ys[0]) && spec_fits_all(xs.drop_first(), ys.drop_first())
    }
}

fn fits_all(xs: &Vec<Ty>, ys: &Vec<Ty>) -> (r: bool)
    ensures
        r == spec_fits_all(tys_view(xs@), tys_view(ys@)),
    decreases xs@, 0nat,
{
    let ghost a = tys_view(xs@);
    let ghost b = tys_view(ys@);
    assert(a.skip(0) =~= a);
    assert(b.skip(0) =~= b);
    let mut i: usize = 0;
    while i < xs.len() && i < ys.len()
        invariant
            i <= xs@.len(),
            i <= ys@.len(),
            a == tys_view(xs@),
            b == tys_view(ys@),
            spec_fits_all(a, b) == spec_fits_all(a.skip(i as int), b.skip(i as int)),
        decreases xs@.len() - i,
    {
        proof {
            assert(decreases_to!(xs@ => xs@[i as int]));
            assert(a.skip(i as int)[0] == xs@[i as int]@);
            assert(b.skip(i as int)[0] == ys@[i as int]@);
            assert(a.skip(i as int).drop_first() =~= a.skip(i + 1));
            assert(b.skip(i as int).drop_first() =~= b.skip(i + 1));
        }
        if !fits_return(&xs[i], &ys[i]) {
            return false;
        }
        i += 1;
    }
    true
}

/// Whether `actual` fits the declared type `declared` (see
/// [`spec_fits_return`]).
pub fn fits_return(actual: &Ty, declared: &Ty) -> (r: bool)
    ensures
        r == spec_fits_return(actual@, declared@),
    decreases actual, 1nat,
{
    proof {
        lemma_ty_view(*actual);
        lemma_ty_view(*declared);
    }
    match actual {
        Ty::Var(_) => true,
        Ty::Generic(n, xs) => {
            if is_named(n, "Result") && xs.len() == 2 && matches!(xs[0], Ty::Var(_)) {
                proof {
                    lemma_ty_view(xs@[0]);
                }
                return true;
            }
            proof {
                if xs.len() == 2 {
                    lemma_ty_view(xs@[0]);
                }
            }
            match declared {
                Ty::Generic(m, ys) => {
                    if *n == *m && xs.len() == ys.len() {
                        fits_all(xs, ys)
                    } else {
                        ty_eq(actual, declared)
                    }
                },
                _ => ty_eq(actual, declared),
            }
        },
        Ty::Struct(StructKey::Instance(f, _)) => match declared {
            Ty::Struct(StructKey::Family(d)) => *f == *d || ty_eq(actual, declared),
            _ => ty_eq(actual, declared),
        },
        Ty::List(a) => match declared {
            Ty::List(b) => fits_return(a, b),
            _ => ty_eq(actual, declared),
        },
        Ty::Array(a) => match declared {
            Ty::Array(b) => fits_return(a, b),
            _ => ty_eq(actual, declared),
        },
        Ty::Range(a) => match declared {
            Ty::Range(b) => fits_return(a, b),
            _ => ty_eq(actual, declared),
        },
        Ty::Sender(a) => match declared {
            Ty::Sender(b) => fits_return(a, b),
            _ => ty_eq(actual, declared),
        },
        Ty::Receiver(a) => match declared {
            Ty::Receiver(b) => fits_return(a, b),
            _ => ty_eq(actual, declared),
        },
        Ty::ReceiverFactory(a) => match declared {
            Ty::ReceiverFactory(b) => fits_return(a, b),
            _ => ty_eq(actual, declared),
        },
        Ty::SetOf(a) => match declared {
            Ty::SetOf(b) => fits_return(a, b),
            _ => ty_eq(actual, declared),
        },
        Ty::Dict(k1, v1) => match declared {
            Ty::Dict(k2, v2) => fits_return(k1, k2) && fits_return(v1, v2),
            _ => ty_eq(actual, declared),
        },
        _ => ty_eq(actual, declared),
    }
}

// ── type_compatible ─────────────────────────────────────────────────

/// Channel element compatibility: equal types, or a variable on either side.
pub open spec fn spec_type_compatible(actual: SpecTy, expected: SpecTy) -> bool {
    actual == expected || actual is Var || expected is Var
}

pub fn type_compatible(actual: &Ty, expected: &Ty) -> (r: bool)
    ensures
        r == spec_type_compatible(actual@, expected@),
{
    proof {
        lemma_ty_view(*actual);
        lemma_ty_view(*expected);
    }
    if ty_eq(actual, expected) {
        return true;
    }
    matches!(actual, Ty::Var(_)) || matches!(expected, Ty::Var(_))
}

// ── registry names ──────────────────────────────────────────────────

/// The name under which a type is validated as the base of a `refines`
/// delegation; the empty name for types that are not validated.
pub open spec fn spec_ty_name(t: SpecTy) -> Seq<char> {
    match t {
        SpecTy::Prim(PrimTy::Int) => "Int"@,
        SpecTy::Prim(PrimTy::Float) => "Float"@,
        SpecTy::Prim(PrimTy::Rational) => "Rational"@,
        SpecTy::Prim(PrimTy::Text) => "Text"@,
        SpecTy::Struct(k) => spec_key_name(k),
        SpecTy::Sum(n) => n,
        _ => ""@,
    }
}

pub fn ty_name(ty: &Ty) -> (r: &str)
    ensures
        r@ == spec_ty_name(ty@),
{
    proof {
        lemma_ty_view(*ty);
    }
    match ty {
        Ty::Prim(PrimTy::Int) => "Int",
        Ty::Prim(PrimTy::Float) => "Float",
        Ty::Prim(PrimTy::Rational) => "Rational",
        Ty::Prim(PrimTy::Text) => "Text",
        Ty::Struct(key) => key_name(key).as_str(),
        Ty::Sum(name) => name.as_str(),
        _ => "",
    }
}

/// The name of a concrete type for interface-registry lookups.
pub open spec fn spec_concrete_type_name(t: SpecTy) -> Option<Seq<char>> {
    match t {
        SpecTy::List(_) => Some("List"@),
        SpecTy::Array(_) => Some("Array"@),
        SpecTy::Range(_) => Some("Range"@),
        SpecTy::Dict(_, _) => Some("Dict"@),
        SpecTy::SetOf(_) => Some("Set"@),
        SpecTy::Prim(PrimTy::Int) => Some("Int"@),
        SpecTy::Prim(PrimTy::Float) => Some("Float"@),
        SpecTy::Prim(PrimTy::Text) => Some("Text"@),
        SpecTy::Prim(PrimTy::Rational) => Some("Rational"@),
        SpecTy::Struct(k) => Some(spec_key_name(k)),
        SpecTy::Sum(n) => Some(n),
        SpecTy::Generic(n, _) => Some(n),
        _ => None,
    }
}

pub fn concrete_type_name(ty: &Ty) -> (r: Option<String>)
    ensures
        r matches Some(n) ==> spec_concrete_type_name(ty@) == Some(n@),
        r is None ==> spec_concrete_type_name(ty@) is None,
{
    proof {
        lemma_ty_view(*ty);
    }
    match ty {
        Ty::List(_) => Some(owned("List")),
        Ty::Array(_) => Some(owned("Array")),
        Ty::Range(_) => Some(owned("Range")),
        Ty::Dict(_, _) => Some(owned("Dict")),
        Ty::SetOf(_) => Some(owned("Set")),
        Ty::Prim(PrimTy::Int) => Some(owned("Int")),
        Ty::Prim(PrimTy::Float) => Some(owned("Float")),
        Ty::Prim(PrimTy::Text) => Some(owned("Text")),
        Ty::Prim(PrimTy::Rational) => Some(owned("Rational")),
        Ty::Struct(key) => Some(string_clone(key_name(key))),
        Ty::Sum(name) => Some(string_clone(name)),
        Ty::Generic(name, _) => Some(string_clone(name)),
        _ => None,
    }
}

// ── escape of channel sends ─────────────────────────────────────────

/// Where a value must live for its lifetime to be long enough.
#[derive(Clone, Copy, Debug, PartialEq, Eq, Structural)]
pub enum EscapeTarget {
    /// The current arena.
    Local,
    /// The caller's arena.
    Caller,
}

/// Inline values (primitives, unit, handles, function pointers, actions,
/// variables) stay local; composite values sent over a channel go to the
/// caller's arena.
pub open spec fn spec_escape_for_channel_send(t: SpecTy) -> EscapeTarget {
    match t {
        SpecTy::Prim(_) | SpecTy::Unit | SpecTy::Action(_, _) | SpecTy::Var(_)
        | SpecTy::InferVar(_) | SpecTy::Sender(_) | SpecTy::Receiver(_) | SpecTy::Function(
            _,
            _,
        ) => EscapeTarget::Local,
        _ => EscapeTarget::Caller,
    }
}

pub fn escape_for_channel_send(ty: &Ty, _tail_pos: bool) -> (r: EscapeTarget)
    ensures
        r == spec_escape_for_channel_send(ty@),
{
    proof {
        lemma_ty_view(*ty);
    }
    match ty {
        Ty::Prim(_) | Ty::Unit => EscapeTarget::Local,
        Ty::Action(..) => EscapeTarget::Local,
        Ty::Var(_) | Ty::InferVar(_) => EscapeTarget::Local,
        Ty::Sender(_) | Ty::Receiver(_) => EscapeTarget::Local,
        Ty::Function(..) => EscapeTarget::Local,
        _ => EscapeTarget::Caller,
    }
}


// ── arm types: limited unification and back-propagation ────────────

/// Limited unification of the types of two match arms: a variable yields
/// the other side; matching constructors unify argument by argument;
/// otherwise the types must be equal.
pub open spec fn spec_unify_arm_types(a: SpecTy, b: SpecTy) -> Option<SpecTy>
    decreases a,
{
    match a {
        SpecTy::Var(_) => if b is Var && a == b {
            Some(a)
        } else {
            Some(b)
        },
        _ => if b is Var {
            Some(a)
        } else {
            match (a, b) {
                (SpecTy::Generic(n1, a1), SpecTy::Generic(n2, a2)) => if n1 == n2 && a1.len()
                    == a2.len() {
                    match spec_unify_arm_seq(a1, a2) {
                        Some(u) => Some(SpecTy::Generic(n1, u)),
                        None => None,
                    }
                } else {
                    spec_arm_eq(a, b)
                },
                (SpecTy::Tuple(a1), SpecTy::Tuple(a2)) => if a1.len() == a2.len() {
                    match spec_unify_arm_seq(a1, a2) {
                        Some(u) => Some(SpecTy::Tuple(u)),
                        None => None,
                    }
                } else {
                    spec_arm_eq(a, b)
                },
                (SpecTy::Function(p1, r1), SpecTy::Function(p2, r2)) => if p1.len() == p2.len() {
                    match (spec_unify_arm_seq(p1, p2), spec_unify_arm_types(*r1, *r2)) {
                        (Some(u), Some(r)) => Some(SpecTy::Function(u, Box::new(r))),
                        _ => None,
                    }
                } else {
                    spec_arm_eq(a, b)
                },
                (SpecTy::List(x), SpecTy::List(y)) => match spec_unify_arm_types(*x, *y) {
                    Some(u) => Some(SpecTy::List(Box::new(u))),
                    None => None,
                },
                (SpecTy::Array(x), SpecTy::Array(y)) => match spec_unify_arm_types(*x, *y) {
                    Some(u) => Some(SpecTy::Array(Box::new(u))),
                    None => None,
                },
                (SpecTy::Range(x), SpecTy::Range(y)) => match spec_unify_arm_types(*x, *y) {
                    Some(u) => Some(SpecTy::Range(Box::new(u))),
                    None => None,
                },
                (SpecTy::Sender(x), SpecTy::Sender(y)) => match spec_unify_arm_types(*x, *y) {
                    Some(u) => Some(SpecTy::Sender(Box::new(u))),
                    None => None,
                },
                (SpecTy::Receiver(x), SpecTy::Receiver(y)) => match spec_unify_arm_types(*x, *y) {
                    Some(u) => Some(SpecTy::Receiver(Box::new(u))),
                    None => None,
                },
                (SpecTy::ReceiverFactory(x), SpecTy::ReceiverFactory(y)) => match spec_unify_arm_types(
                    *x,
                    *y,
                ) {
                    Some(u) => Some(SpecTy::ReceiverFactory(Box::new(u))),
                    None => None,
                },
                (SpecTy::Dict(k1, v1), SpecTy::Dict(k2, v2)) => match (
                    spec_unify_arm_types(*k1, *k2),
                    spec_unify_arm_types(*v1, *v2),
                ) {
                    (Some(k), Some(v)) => Some(SpecTy::Dict(Box::new(k), Box::new(v))),
                    _ => None,
                },
                (SpecTy::SetOf(x), SpecTy::SetOf(y)) => match spec_unify_arm_types(*x, *y) {
                    Some(u) => Some(SpecTy::SetOf(Box::new(u))),
                    None => None,
                },
                _ => spec_arm_eq(a, b),
            }
        },
    }
}

/// Equal types unify to themselves; others do not unify.
pub open spec fn spec_arm_eq(a: SpecTy, b: SpecTy) -> Option<SpecTy> {
    if a == b {
        Some(a)
    } else {
        None
    }
}

/// Position-wise arm unification; `None` as soon as one position fails.
pub open spec fn spec_unify_arm_seq(xs: Seq<SpecTy>, ys: Seq<SpecTy>) -> Option<Seq<SpecTy>>
    decreases xs,
{
    if xs.len() == 0 || ys.len() == 0 {
        Some(Seq::empty())
    } else {
        match spec_unify_arm_types(xs[0], ys[0]) {
            None => None,
            Some(h) => match spec_unify_arm_seq(xs.drop_first(), ys.drop_first()) {
                Some(t) => Some(seq![h] + t),
                None => None,
            },
        }
    }
}

fn unify_arm_seq(xs: &Vec<Ty>, ys: &Vec<Ty>) -> (r: Option<Vec<Ty>>)
    ensures
        r matches Some(v) ==> spec_unify_arm_seq(tys_view(xs@), tys_view(ys@)) == Some(tys_view(v@)),
        r is None ==> spec_unify_arm_seq(tys_view(xs@), tys_view(ys@)) is None,
    decreases xs@, 0nat,
{
    let ghost a = tys_view(xs@);
    let ghost b = tys_view(ys@);
    assert(a.skip(0) =~= a);
    assert(b.skip(0) =~= b);
    let mut out: Vec<Ty> = Vec::new();
    let mut i: usize = 0;
    while i < xs.len() && i < ys.len()
        invariant
            i <= xs@.len(),
            i <= ys@.len(),
            a == tys_view(xs@),
            b == tys_view(ys@),
            spec_unify_arm_seq(a, b) == match spec_unify_arm_seq(a.skip(i as int), b.skip(i as int)) {
                Some(t) => Some(tys_view(out@) + t),
                None => None::<Seq<SpecTy>>,
            },
        decreases xs@.len() - i,
    {
        proof {
            assert(decreases_to!(xs@ => xs@[i as int]));
            assert(a.skip(i as int)[0] == xs@[i as int]@);
            assert(b.skip(i as int)[0] == ys@[i as int]@);
            assert(a.skip(i as int).drop_first() =~= a.skip(i + 1));
            assert(b.skip(i as int).drop_first() =~= b.skip(i + 1));
        }
        match unify_arm_types(&xs[i], &ys[i]) {
            None => return None,
            Some(h) => {
                let ghost old_out = tys_view(out@);
                let ghost hv = h@;
                out.push(h);
                proof {
                    assert(tys_view(out@) =~= old_out.push(hv));
                    assert forall|t: Seq<SpecTy>| true implies old_out + (seq![hv] + t) =~= tys_view(out@) + t by {}
                }
            },
        }
        i += 1;
    }
    proof {
        assert(tys_view(out@) + Seq::<SpecTy>::empty() =~= tys_view(out@));
    }
    Some(out)
}

/// The unified type of two match arms, if they unify (see
/// [`spec_unify_arm_types`]).
pub fn unify_arm_types(a: &Ty, b: &Ty) -> (r: Option<Ty>)
    ensures
        r matches Some(t) ==> spec_unify_arm_types(a@, b@) == Some(t@),
        r is None ==> spec_unify_arm_types(a@, b@) is None,
    decreases a, 1nat,
{
    proof {
        lemma_ty_view(*a);
        lemma_ty_view(*b);
    }
    if let Ty::Var(_) = a {
        if matches!(b, Ty::Var(_)) && ty_eq(a, b) {
            return Some(ty_clone(a));
        }
        return Some(ty_clone(b));
    }
    if let Ty::Var(_) = b {
        return Some(ty_clone(a));
    }
    match (a, b) {
        (Ty::Generic(n1, a1), Ty::Generic(n2, a2)) => {
            if *n1 == *n2 && a1.len() == a2.len() {
                match unify_arm_seq(a1, a2) {
                    Some(u) => Some(Ty::Generic(string_clone(n1), u)),
                    None => None,
                }
            } else {
                arm_eq(a, b)
            }
        },
        (Ty::Tuple(a1), Ty::Tuple(a2)) => {
            if a1.len() == a2.len() {
                match unify_arm_seq(a1, a2) {
                    Some(u) => Some(Ty::Tuple(u)),
                    None => None,
                }
            } else {
                arm_eq(a, b)
            }
        },
        (Ty::Function(p1, r1), Ty::Function(p2, r2)) => {
            if p1.len() == p2.len() {
                let up = unify_arm_seq(p1, p2);
                match up {
                    None => None,
                    Some(u) => match unify_arm_types(r1, r2) {
                        Some(r) => Some(Ty::Function(u, Box::new(r))),
                        None => None,
                    },
                }
            } else {
                arm_eq(a, b)
            }
        },
        (Ty::List(x), Ty::List(y)) => match unify_arm_types(x, y) {
            Some(u) => Some(Ty::List(Box::new(u))),
            None => None,
        },
        (Ty::Array(x), Ty::Array(y)) => match unify_arm_types(x, y) {
            Some(u) => Some(Ty::Array(Box::new(u))),
            None => None,
        },
        (Ty::Range(x), Ty::Range(y)) => match unify_arm_types(x, y) {
            Some(u) => Some(Ty::Range(Box::new(u))),
            None => None,
        },
        (Ty::Sender(x), Ty::Sender(y)) => match unify_arm_types(x, y) {
            Some(u) => Some(Ty::Sender(Box::new(u))),
            None => None,
        },
        (Ty::Receiver(x), Ty::Receiver(y)) => match unify_arm_types(x, y) {
            Some(u) => Some(Ty::Receiver(Box::new(u))),
            None => None,
        },
        (Ty::ReceiverFactory(x), Ty::ReceiverFactory(y)) => match unify_arm_types(x, y) {
            Some(u) => Some(Ty::ReceiverFactory(Box::new(u))),
            None => None,
        },
        (Ty::Dict(k1, v1), Ty::Dict(k2, v2)) => {
            let k = unify_arm_types(k1, k2);
            match k {
                None => None,
                Some(k) => match unify_arm_types(v1, v2) {
                    Some(v) => Some(Ty::Dict(Box::new(k), Box::new(v))),
                    None => None,
                },
            }
        },
        (Ty::SetOf(x), Ty::SetOf(y)) => match unify_arm_types(x, y) {
            Some(u) => Some(Ty::SetOf(Box::new(u))),
            None => None,
        },
        _ => arm_eq(a, b),
    }
}

fn arm_eq(a: &Ty, b: &Ty) -> (r: Option<Ty>)
    ensures
        r matches Some(t) ==> spec_arm_eq(a@, b@) == Some(t@),
        r is None ==> spec_arm_eq(a@, b@) is None,
{
    if ty_eq(a, b) {
        Some(ty_clone(a))
    } else {
        None
    }
}

/// Back-propagation of a resolved match type into an arm type: where
/// the arm has a variable, the resolved type's part is taken; matching
/// constructors are walked in parallel; anything else stays as it is.
pub open spec fn spec_propagate_resolved(t: SpecTy, resolved: SpecTy) -> SpecTy
    decreases t,
{
    match t {
        SpecTy::Var(_) => resolved,
        _ => match (t, resolved) {
            (SpecTy::Generic(n1, a1), SpecTy::Generic(n2, a2)) => if n1 == n2 && a1.len()
                == a2.len() {
                SpecTy::Generic(n1, spec_propagate_seq(a1, a2))
            } else {
                t
            },
            (SpecTy::Tuple(a1), SpecTy::Tuple(a2)) => if a1.len() == a2.len() {
                SpecTy::Tuple(spec_propagate_seq(a1, a2))
            } else {
                t
            },
            (SpecTy::Function(p1, r1), SpecTy::Function(p2, r2)) => if p1.len() == p2.len() {
                SpecTy::Function(
                    spec_propagate_seq(p1, p2),
                    Box::new(spec_propagate_resolved(*r1, *r2)),
                )
            } else {
                t
            },
            (SpecTy::List(x), SpecTy::List(y)) => SpecTy::List(
                Box::new(spec_propagate_resolved(*x, *y)),
            ),
            (SpecTy::Array(x), SpecTy::Array(y)) => SpecTy::Array(
                Box::new(spec_propagate_resolved(*x, *y)),
            ),
            (SpecTy::Range(x), SpecTy::Range(y)) => SpecTy::Range(
                Box::new(spec_propagate_resolved(*x, *y)),
            ),
            (SpecTy::Sender(x), SpecTy::Sender(y)) => SpecTy::Sender(
                Box::new(spec_propagate_resolved(*x, *y)),
            ),
            (SpecTy::Receiver(x), SpecTy::Receiver(y)) => SpecTy::Receiver(
                Box::new(spec_propagate_resolved(*x, *y)),
            ),
            (SpecTy::ReceiverFactory(x), SpecTy::ReceiverFactory(y)) => SpecTy::ReceiverFactory(
                Box::new(spec_propagate_resolved(*x, *y)),
            ),
            (SpecTy::Dict(k1, v1), SpecTy::Dict(k2, v2)) => SpecTy::Dict(
                Box::new(spec_propagate_resolved(*k1, *k2)),
                Box::new(spec_propagate_resolved(*v1, *v2)),
            ),
            (SpecTy::SetOf(x), SpecTy::SetOf(y)) => SpecTy::SetOf(
                Box::new(spec_propagate_resolved(*x, *y)),
            ),
            _ => t,
        },
    }
}

/// Position-wise back-propagation over two lists of the same length.
pub open spec fn spec_propagate_seq(xs: Seq<SpecTy>, ys: Seq<SpecTy>) -> Seq<SpecTy>
    decreases xs,
{
    Seq::new(
        xs.len(),
        |i: int|
            if 0 <= i < xs.len() {
                spec_propagate_resolved(xs[i], ys[i])
            } else {
                SpecTy::Unit
            },
    )
}

fn propagate_seq(xs: &Vec<Ty>, ys: &Vec<Ty>) -> (r: Vec<Ty>)
    requires
        xs@.len() == ys@.len(),
    ensures
        tys_view(r@) == spec_propagate_seq(tys_view(xs@), tys_view(ys@)),
    decreases xs@, 0nat,
{
    let mut out: Vec<Ty> = Vec::new();
    let mut i: usize = 0;
    while i < xs.len()
        invariant
            i <= xs@.len(),
            xs@.len() == ys@.len(),
            out@.len() == i,
            forall|j: int|
                0 <= j < i ==> (#[trigger] out@[j])@ == spec_propagate_resolved(
                    xs@[j]@,
                    ys@[j]@,
                ),
        decreases xs@.len() - i,
    {
        proof {
            assert(decreases_to!(xs@ => xs@[i as int]));
        }
        let t = propagate_resolved(&xs[i], &ys[i]);
        out.push(t);
        i += 1;
    }
    assert(tys_view(out@) =~= spec_propagate_seq(tys_view(xs@), tys_view(ys@)));
    out
}

/// Back-propagates the resolved type of a match into an arm type (see
/// [`spec_propagate_resolved`]).
pub fn propagate_resolved(ty: &Ty, resolved: &Ty) -> (r: Ty)
    ensures
        r@ == spec_propagate_resolved(ty@, resolved@),
    decreases ty, 1nat,
{
    proof {
        lemma_ty_view(*ty);
        lemma_ty_view(*resolved);
    }
    if let Ty::Var(_) = ty {
        return ty_clone(resolved);
    }
    match (ty, resolved) {
        (Ty::Generic(n1, a1), Ty::Generic(n2, a2)) => {
            if *n1 == *n2 && a1.len() == a2.len() {
                Ty::Generic(string_clone(n1), propagate_seq(a1, a2))
            } else {
                ty_clone(ty)
            }
        },
        (Ty::Tuple(a1), Ty::Tuple(a2)) => {
            if a1.len() == a2.len() {
                Ty::Tuple(propagate_seq(a1, a2))
            } else {
                ty_clone(ty)
            }
        },
        (Ty::Function(p1, r1), Ty::Function(p2, r2)) => {
            if p1.len() == p2.len() {
                Ty::Function(propagate_seq(p1, p2), Box::new(propagate_resolved(r1, r2)))
            } else {
                ty_clone(ty)
            }
        },
        (Ty::List(x), Ty::List(y)) => Ty::List(Box::new(propagate_resolved(x, y))),
        (Ty::Array(x), Ty::Array(y)) => Ty::Array(Box::new(propagate_resolved(x, y))),
        (Ty::Range(x), Ty::Range(y)) => Ty::Range(Box::new(propagate_resolved(x, y))),
        (Ty::Sender(x), Ty::Sender(y)) => Ty::Sender(Box::new(propagate_resolved(x, y))),
        (Ty::Receiver(x), Ty::Receiver(y)) => Ty::Receiver(Box::new(propagate_resolved(x, y))),
        (Ty::ReceiverFactory(x), Ty::ReceiverFactory(y)) => Ty::ReceiverFactory(
            Box::new(propagate_resolved(x, y)),
        ),
        (Ty::Dict(k1, v1), Ty::Dict(k2, v2)) => Ty::Dict(
            Box::new(propagate_resolved(k1, k2)),
            Box::new(propagate_resolved(v1, v2)),
        ),
        (Ty::SetOf(x), Ty::SetOf(y)) => Ty::SetOf(Box::new(propagate_resolved(x, y))),
        _ => ty_clone(ty),
    }
}


// ── laws of arm types ───────────────────────────────────────────────

/// Every type unifies with itself, to itself.
pub proof fn law_unify_arm_types_reflexive(t: SpecTy)
    ensures
        spec_unify_arm_types(t, t) == Some(t),
    decreases t,
{
    match t {
        SpecTy::Generic(n, xs) => {
            lemma_unify_arm_seq_reflexive(xs);
            assert(seq![] + xs =~= xs);
        },
        SpecTy::Tuple(xs) => lemma_unify_arm_seq_reflexive(xs),
        SpecTy::Function(ps, r) => {
            lemma_unify_arm_seq_reflexive(ps);
            law_unify_arm_types_reflexive(*r);
        },
        SpecTy::List(x) => law_unify_arm_types_reflexive(*x),
        SpecTy::Array(x) => law_unify_arm_types_reflexive(*x),
        SpecTy::Range(x) => law_unify_arm_types_reflexive(*x),
        SpecTy::Sender(x) => law_unify_arm_types_reflexive(*x),
        SpecTy::Receiver(x) => law_unify_arm_types_reflexive(*x),
        SpecTy::ReceiverFactory(x) => law_unify_arm_types_reflexive(*x),
        SpecTy::SetOf(x) => law_unify_arm_types_reflexive(*x),
        SpecTy::Dict(k, v) => {
            law_unify_arm_types_reflexive(*k);
            law_unify_arm_types_reflexive(*v);
        },
        _ => {},
    }
}

proof fn lemma_unify_arm_seq_reflexive(xs: Seq<SpecTy>)
    ensures
        spec_unify_arm_seq(xs, xs) == Some(xs),
    decreases xs,
{
    if xs.len() > 0 {
        law_unify_arm_types_reflexive(xs[0]);
        lemma_unify_arm_seq_reflexive(xs.drop_first());
        assert(seq![xs[0]] + xs.drop_first() =~= xs);
    }
}

/// Back-propagating a type into itself changes nothing.
pub proof fn law_propagate_resolved_self(t: SpecTy)
    ensures
        spec_propagate_resolved(t, t) == t,
    decreases t,
{
    match t {
        SpecTy::Generic(n, xs) => lemma_propagate_seq_self(xs),
        SpecTy::Tuple(xs) => lemma_propagate_seq_self(xs),
        SpecTy::Function(ps, r) => {
            lemma_propagate_seq_self(ps);
            law_propagate_resolved_self(*r);
        },
        SpecTy::List(x) => law_propagate_resolved_self(*x),
        SpecTy::Array(x) => law_propagate_resolved_self(*x),
        SpecTy::Range(x) => law_propagate_resolved_self(*x),
        SpecTy::Sender(x) => law_propagate_resolved_self(*x),
        SpecTy::Receiver(x) => law_propagate_resolved_self(*x),
        SpecTy::ReceiverFactory(x) => law_propagate_resolved_self(*x),
        SpecTy::SetOf(x) => law_propagate_resolved_self(*x),
        SpecTy::Dict(k, v) => {
            law_propagate_resolved_self(*k);
            law_propagate_resolved_self(*v);
        },
        _ => {},
    }
}

proof fn lemma_propagate_seq_self(xs: Seq<SpecTy>)
    ensures
        spec_propagate_seq(xs, xs) == xs,
    decreases xs,
{
    assert forall|i: int| 0 <= i < xs.len() implies #[trigger] spec_propagate_seq(xs, xs)[i]
        == xs[i] by {
        law_propagate_resolved_self(xs[i]);
    }
    assert(spec_propagate_seq(xs, xs) =~= xs);
}

/// Back-propagating the unified type of two arms into the first arm's type
/// gives the unified type back.
pub proof fn law_propagate_after_unify_arm(a: SpecTy, b: SpecTy)
    requires
        spec_unify_arm_types(a, b) is Some,
    ensures
        spec_propagate_resolved(a, spec_unify_arm_types(a, b)->0) == spec_unify_arm_types(
            a,
            b,
        )->0,
    decreases a,
{
    let r = spec_unify_arm_types(a, b)->0;
    if a is Var {
    } else if b is Var {
        law_propagate_resolved_self(a);
    } else {
        match (a, b) {
            (SpecTy::Generic(n1, a1), SpecTy::Generic(n2, a2)) => {
                if n1 == n2 && a1.len() == a2.len() {
                    lemma_propagate_after_unify_arm_seq(a1, a2);
                } else {
                    law_propagate_resolved_self(a);
                }
            },
            (SpecTy::Tuple(a1), SpecTy::Tuple(a2)) => {
                if a1.len() == a2.len() {
                    lemma_propagate_after_unify_arm_seq(a1, a2);
                } else {
                    law_propagate_resolved_self(a);
                }
            },
            (SpecTy::Function(p1, r1), SpecTy::Function(p2, r2)) => {
                if p1.len() == p2.len() {
                    lemma_propagate_after_unify_arm_seq(p1, p2);
                    law_propagate_after_unify_arm(*r1, *r2);
                } else {
                    law_propagate_resolved_self(a);
                }
            },
            (SpecTy::List(x), SpecTy::List(y)) => law_propagate_after_unify_arm(*x, *y),
            (SpecTy::Array(x), SpecTy::Array(y)) => law_propagate_after_unify_arm(*x, *y),
            (SpecTy::Range(x), SpecTy::Range(y)) => law_propagate_after_unify_arm(*x, *y),
            (SpecTy::Sender(x), SpecTy::Sender(y)) => law_propagate_after_unify_arm(*x, *y),
            (SpecTy::Receiver(x), SpecTy::Receiver(y)) => law_propagate_after_unify_arm(*x, *y),
            (SpecTy::ReceiverFactory(x), SpecTy::ReceiverFactory(y)) => law_propagate_after_unify_arm(
                *x,
                *y,
            ),
            (SpecTy::SetOf(x), SpecTy::SetOf(y)) => law_propagate_after_unify_arm(*x, *y),
            (SpecTy::Dict(k1, v1), SpecTy::Dict(k2, v2)) => {
                law_propagate_after_unify_arm(*k1, *k2);
                law_propagate_after_unify_arm(*v1, *v2);
            },
            _ => law_propagate_resolved_self(a),
        }
    }
}

proof fn lemma_propagate_after_unify_arm_seq(xs: Seq<SpecTy>, ys: Seq<SpecTy>)
    requires
        xs.len() == ys.len(),
        spec_unify_arm_seq(xs, ys) is Some,
    ensures
        spec_unify_arm_seq(xs, ys)->0.len() == xs.len(),
        spec_propagate_seq(xs, spec_unify_arm_seq(xs, ys)->0) == spec_unify_arm_seq(xs, ys)->0,
    decreases xs,
{
    if xs.len() > 0 {
        let h = spec_unify_arm_types(xs[0], ys[0])->0;
        lemma_propagate_after_unify_arm_seq(xs.drop_first(), ys.drop_first());
        law_propagate_after_unify_arm(xs[0], ys[0]);
        let t = spec_unify_arm_seq(xs.drop_first(), ys.drop_first())->0;
        let u = seq![h] + t;
        assert forall|i: int| 0 <= i < xs.len() implies #[trigger] spec_propagate_seq(xs, u)[i]
            == u[i] by {
            if i > 0 {
                assert(xs[i] == xs.drop_first()[i - 1]);
                assert(u[i] == t[i - 1]);
                assert(spec_propagate_seq(xs.drop_first(), t)[i - 1] == t[i - 1]);
            }
        }
        assert(spec_propagate_seq(xs, u) =~= u);
    } else {
        assert(spec_propagate_seq(xs, Seq::empty()) =~= Seq::<SpecTy>::empty());
    }
}

/// The element type of a list, an array or a range.
pub open spec fn spec_extract_elem_ty(t: SpecTy) -> Option<SpecTy> {
    match t {
        SpecTy::List(e) => Some(*e),
        SpecTy::Array(e) => Some(*e),
        SpecTy::Range(e) => Some(*e),
        _ => None,
    }
}

/// The element type of a collection type.
pub fn extract_elem_ty(coll_ty: &Ty) -> (r: Option<Ty>)
    ensures
        match (r, spec_extract_elem_ty(coll_ty@)) {
            (Some(t), Some(st)) => t@ == st,
            (None, None) => true,
            _ => false,
        },
{
    proof {
        lemma_ty_view(*coll_ty);
    }
    match coll_ty {
        Ty::List(elem) => Some(ty_clone(elem)),
        Ty::Array(elem) => Some(ty_clone(elem)),
        Ty::Range(elem) => Some(ty_clone(elem)),
        _ => None,
    }
}

/// A type variable in an arm takes the other arm's type, whatever it is.
pub proof fn law_arm_variable_takes_other(v: Seq<char>, t: SpecTy)
    ensures
        spec_unify_arm_types(SpecTy::Var(v), t) == Some(t),
        !(t is Var) ==> spec_unify_arm_types(t, SpecTy::Var(v)) == Some(t),
{
}

/// The unary type constructors unify their arguments: two lists (arrays,
/// ranges, sets, senders, receivers, receiver factories) unify exactly
/// when their element types do, to the constructor applied to the
/// unified element type.
pub proof fn law_arm_constructors_unify_elements(x: SpecTy, y: SpecTy)
    ensures
        spec_unify_arm_types(SpecTy::List(Box::new(x)), SpecTy::List(Box::new(y))) == match spec_unify_arm_types(x, y) {
            Some(u) => Some(SpecTy::List(Box::new(u))),
            None => None,
        },
        spec_unify_arm_types(SpecTy::Array(Box::new(x)), SpecTy::Array(Box::new(y))) == match spec_unify_arm_types(x, y) {
            Some(u) => Some(SpecTy::Array(Box::new(u))),
            None => None,
        },
        spec_unify_arm_types(SpecTy::Range(Box::new(x)), SpecTy::Range(Box::new(y))) == match spec_unify_arm_types(x, y) {
            Some(u) => Some(SpecTy::Range(Box::new(u))),
            None => None,
        },
        spec_unify_arm_types(SpecTy::SetOf(Box::new(x)), SpecTy::SetOf(Box::new(y))) == match spec_unify_arm_types(x, y) {
            Some(u) => Some(SpecTy::SetOf(Box::new(u))),
            None => None,
        },
        spec_unify_arm_types(SpecTy::Sender(Box::new(x)), SpecTy::Sender(Box::new(y))) == match spec_unify_arm_types(x, y) {
            Some(u) => Some(SpecTy::Sender(Box::new(u))),
            None => None,
        },
        spec_unify_arm_types(SpecTy::Receiver(Box::new(x)), SpecTy::Receiver(Box::new(y))) == match spec_unify_arm_types(x, y) {
            Some(u) => Some(SpecTy::Receiver(Box::new(u))),
            None => None,
        },
        spec_unify_arm_types(SpecTy::ReceiverFactory(Box::new(x)), SpecTy::ReceiverFactory(Box::new(y)))
            == match spec_unify_arm_types(x, y) {
            Some(u) => Some(SpecTy::ReceiverFactory(Box::new(u))),
            None => None,
        },
{
}

/// An empty-list arm (`List(T)`, `T` a variable) unifies with a list arm
/// of any element type, to that list type.
pub proof fn law_arm_empty_list_takes_other(v: Seq<char>, t: SpecTy)
    ensures
        spec_unify_arm_types(SpecTy::List(Box::new(SpecTy::Var(v))), SpecTy::List(Box::new(t)))
            == Some(SpecTy::List(Box::new(t))),
{
    law_arm_variable_takes_other(v, t);
    law_arm_constructors_unify_elements(SpecTy::Var(v), t);
}

/// Dictionaries unify key with key and value with value; tuples (and
/// generic applications of one name) of equal length unify position by
/// position.
pub proof fn law_arm_composites_unify_parts(
    k1: SpecTy,
    v1: SpecTy,
    k2: SpecTy,
    v2: SpecTy,
    xs: Seq<SpecTy>,
    ys: Seq<SpecTy>,
    n: Seq<char>,
)
    ensures
        spec_unify_arm_types(SpecTy::Dict(Box::new(k1), Box::new(v1)), SpecTy::Dict(Box::new(k2), Box::new(v2)))
            == match (spec_unify_arm_types(k1, k2), spec_unify_arm_types(v1, v2)) {
            (Some(k), Some(v)) => Some(SpecTy::Dict(Box::new(k), Box::new(v))),
            _ => None,
        },
        xs.len() == ys.len() ==> spec_unify_arm_types(SpecTy::Tuple(xs), SpecTy::Tuple(ys)) == match spec_unify_arm_seq(xs, ys) {
            Some(u) => Some(SpecTy::Tuple(u)),
            None => None,
        },
        xs.len() == ys.len() ==> spec_unify_arm_types(SpecTy::Generic(n, xs), SpecTy::Generic(n, ys)) == match spec_unify_arm_seq(xs, ys) {
            Some(u) => Some(SpecTy::Generic(n, u)),
            None => None,
        },
{
}

/// A variable result fits any declared type; a type fits itself; a
/// `Result` whose value type is still a variable (a divergent early
/// return) fits any declared type; an instance of a family fits the
/// family.
pub proof fn law_fits_return_basics(v: Seq<char>, t: SpecTy, e: SpecTy, f: Seq<char>, c: Seq<char>)
    ensures
        spec_fits_return(SpecTy::Var(v), t),
        spec_fits_return(SpecTy::Generic("Result"@, seq![SpecTy::Var(v), e]), t),
        spec_fits_return(
            SpecTy::Struct(SpecStructKey::Instance(f, c)),
            SpecTy::Struct(SpecStructKey::Family(f)),
        ),
{
}

/// The unary collection constructors fit when their elements fit, and a
/// dictionary when its keys and values fit.
pub proof fn law_fits_return_elements(x: SpecTy, y: SpecTy, k: SpecTy, w: SpecTy)
    ensures
        spec_fits_return(SpecTy::List(Box::new(x)), SpecTy::List(Box::new(y))) == spec_fits_return(x, y),
        spec_fits_return(SpecTy::Array(Box::new(x)), SpecTy::Array(Box::new(y))) == spec_fits_return(x, y),
        spec_fits_return(SpecTy::Range(Box::new(x)), SpecTy::Range(Box::new(y))) == spec_fits_return(x, y),
        spec_fits_return(SpecTy::SetOf(Box::new(x)), SpecTy::SetOf(Box::new(y))) == spec_fits_return(x, y),
        spec_fits_return(SpecTy::Sender(Box::new(x)), SpecTy::Sender(Box::new(y))) == spec_fits_return(x, y),
        spec_fits_return(SpecTy::Receiver(Box::new(x)), SpecTy::Receiver(Box::new(y))) == spec_fits_return(x, y),
        spec_fits_return(SpecTy::Dict(Box::new(x), Box::new(k)), SpecTy::Dict(Box::new(y), Box::new(w)))
            == (spec_fits_return(x, y) && spec_fits_return(k, w)),
{
}

/// The element type of a list, an array or a range is what it was built
/// with; no other type has one.
pub proof fn law_extract_elem_ty(e: SpecTy, t: SpecTy)
    ensures
        spec_extract_elem_ty(SpecTy::List(Box::new(e))) == Some(e),
        spec_extract_elem_ty(SpecTy::Array(Box::new(e))) == Some(e),
        spec_extract_elem_ty(SpecTy::Range(Box::new(e))) == Some(e),
        !(t is List || t is Array || t is Range) ==> spec_extract_elem_ty(t) is None,
{
}

proof fn lemma_fits_all_reflexive(xs: Seq<SpecTy>)
    ensures
        spec_fits_all(xs, xs),
    decreases xs,
{
    if xs.len() > 0 {
        law_fits_return_reflexive(xs[0]);
        lemma_fits_all_reflexive(xs.drop_first());
    }
}

/// Every type fits itself.
pub proof fn law_fits_return_reflexive(t: SpecTy)
    ensures
        spec_fits_return(t, t),
    decreases t,
{
    match t {
        SpecTy::Generic(_, xs) => lemma_fits_all_reflexive(xs),
        SpecTy::List(x) => law_fits_return_reflexive(*x),
        SpecTy::Array(x) => law_fits_return_reflexive(*x),
        SpecTy::Range(x) => law_fits_return_reflexive(*x),
        SpecTy::Sender(x) => law_fits_return_reflexive(*x),
        SpecTy::Receiver(x) => law_fits_return_reflexive(*x),
        SpecTy::ReceiverFactory(x) => law_fits_return_reflexive(*x),
        SpecTy::SetOf(x) => law_fits_return_reflexive(*x),
        SpecTy::Dict(k, v) => {
            law_fits_return_reflexive(*k);
            law_fits_return_reflexive(*v);
        },
        _ => {},
    }
}

} // verus!
