//! The type language of the compiler: executable `Ty` values, their
//! mathematical views, and deep copy / deep equality on them.

use vstd::prelude::*;

verus! {

/// Primitive scalar types.
#[derive(Clone, Copy, Debug, PartialEq, Eq, Structural)]
pub enum PrimTy {
    Int,
    Float,
    Rational,
    Text,
}

/// How a struct type is keyed.
#[derive(Debug)]
pub enum StructKey {
    /// A plain, non-parametric struct.
    Plain(String),
    /// A polymorphic family (e.g. `NonEmpty`) not yet instantiated.
    Family(String),
    /// A family instantiated at a concrete type: `(family, concrete)`.
    Instance(String, String),
    /// A parametric struct applied to type arguments.
    Generic(String, Vec<Ty>),
}

/// A type of the language.
#[derive(Debug)]
pub enum Ty {
    Prim(PrimTy),
    Unit,
    Bytes,
    File,
    Socket,
    /// A named type variable (type parameter such as `T`).
    Var(String),
    /// An inference placeholder.
    InferVar(u32),
    /// An interface used as a type (e.g. `SHOW`).
    Interface(String),
    /// A sum type (enum) by name.
    Sum(String),
    Struct(StructKey),
    Generic(String, Vec<Ty>),
    Tuple(Vec<Ty>),
    Function(Vec<Ty>, Box<Ty>),
    Action(Vec<Ty>, Box<Ty>),
    List(Box<Ty>),
    Array(Box<Ty>),
    Range(Box<Ty>),
    SetOf(Box<Ty>),
    Tensor(Box<Ty>),
    Sender(Box<Ty>),
    Receiver(Box<Ty>),
    ReceiverFactory(Box<Ty>),
    Dict(Box<Ty>, Box<Ty>),
    /// A set of overload projections sharing one callee name.
    OverloadSet { name: String, overloads: Vec<Ty> },
}

/// Mathematical counterpart of [`StructKey`].
pub enum SpecStructKey {
    Plain(Seq<char>),
    Family(Seq<char>),
    Instance(Seq<char>, Seq<char>),
    Generic(Seq<char>, Seq<SpecTy>),
}

/// Mathematical counterpart of [`Ty`]: names are character sequences.
pub enum SpecTy {
    Prim(PrimTy),
    Unit,
    Bytes,
    File,
    Socket,
    Var(Seq<char>),
    InferVar(u32),
    Interface(Seq<char>),
    Sum(Seq<char>),
    Struct(SpecStructKey),
    Generic(Seq<char>, Seq<SpecTy>),
    Tuple(Seq<SpecTy>),
    Function(Seq<SpecTy>, Box<SpecTy>),
    Action(Seq<SpecTy>, Box<SpecTy>),
    List(Box<SpecTy>),
    Array(Box<SpecTy>),
    Range(Box<SpecTy>),
    SetOf(Box<SpecTy>),
    Tensor(Box<SpecTy>),
    Sender(Box<SpecTy>),
    Receiver(Box<SpecTy>),
    ReceiverFactory(Box<SpecTy>),
    Dict(Box<SpecTy>, Box<SpecTy>),
    OverloadSet { name: Seq<char>, overloads: Seq<SpecTy> },
}

pub open spec fn ty_view(t: Ty) -> SpecTy
    decreases t,
{
    match t {
        Ty::Prim(p) => SpecTy::Prim(p),
        Ty::Unit => SpecTy::Unit,
        Ty::Bytes => SpecTy::Bytes,
        Ty::File => SpecTy::File,
        Ty::Socket => SpecTy::Socket,
        Ty::Var(n) => SpecTy::Var(n@),
        Ty::InferVar(i) => SpecTy::InferVar(i),
        Ty::Interface(n) => SpecTy::Interface(n@),
        Ty::Sum(n) => SpecTy::Sum(n@),
        Ty::Struct(k) => SpecTy::Struct(key_view(k)),
        Ty::Generic(n, args) => SpecTy::Generic(n@, tys_view(args@)),
        Ty::Tuple(elems) => SpecTy::Tuple(tys_view(elems@)),
        Ty::Function(ps, r) => SpecTy::Function(tys_view(ps@), Box::new(ty_view(*r))),
        Ty::Action(ps, r) => SpecTy::Action(tys_view(ps@), Box::new(ty_view(*r))),
        Ty::List(e) => SpecTy::List(Box::new(ty_view(*e))),
        Ty::Array(e) => SpecTy::Array(Box::new(ty_view(*e))),
        Ty::Range(e) => SpecTy::Range(Box::new(ty_view(*e))),
        Ty::SetOf(e) => SpecTy::SetOf(Box::new(ty_view(*e))),
        Ty::Tensor(e) => SpecTy::Tensor(Box::new(ty_view(*e))),
        Ty::Sender(e) => SpecTy::Sender(Box::new(ty_view(*e))),
        Ty::Receiver(e) => SpecTy::Receiver(Box::new(ty_view(*e))),
        Ty::ReceiverFactory(e) => SpecTy::ReceiverFactory(Box::new(ty_view(*e))),
        Ty::Dict(k, v) => SpecTy::Dict(Box::new(ty_view(*k)), Box::new(ty_view(*v))),
        Ty::OverloadSet { name, overloads } => SpecTy::OverloadSet {
            name: name@,
            overloads: tys_view(overloads@),
        },
    }
}

pub open spec fn key_view(k: StructKey) -> SpecStructKey
    decreases k,
{
    match k {
        StructKey::Plain(n) => SpecStructKey::Plain(n@),
        StructKey::Family(n) => SpecStructKey::Family(n@),
        StructKey::Instance(f, c) => SpecStructKey::Instance(f@, c@),
        StructKey::Generic(n, args) => SpecStructKey::Generic(n@, tys_view(args@)),
    }
}

/// The views of a sequence of types, element by element.
pub open spec fn tys_view(ts: Seq<Ty>) -> Seq<SpecTy>
    decreases ts,
{
    Seq::new(ts.len(), |i: int| if 0 <= i < ts.len() { ty_view(ts[i]) } else { SpecTy::Unit })
}

impl View for Ty {
    type V = SpecTy;

    open spec fn view(&self) -> SpecTy {
        ty_view(*self)
    }
}

impl View for StructKey {
    type V = SpecStructKey;

    open spec fn view(&self) -> SpecStructKey {
        key_view(*self)
    }
}

/// One unfolding of the view of a type (and of its struct key).
pub proof fn lemma_ty_view(t: Ty)
    ensures
        t@ == match t {
                Ty::Prim(p) => SpecTy::Prim(p),
                Ty::Unit => SpecTy::Unit,
                Ty::Bytes => SpecTy::Bytes,
                Ty::File => SpecTy::File,
                Ty::Socket => SpecTy::Socket,
                Ty::Var(n) => SpecTy::Var(n@),
                Ty::InferVar(i) => SpecTy::InferVar(i),
                Ty::Interface(n) => SpecTy::Interface(n@),
                Ty::Sum(n) => SpecTy::Sum(n@),
                Ty::Struct(k) => SpecTy::Struct(key_view(k)),
                Ty::Generic(n, args) => SpecTy::Generic(n@, tys_view(args@)),
                Ty::Tuple(elems) => SpecTy::Tuple(tys_view(elems@)),
                Ty::Function(ps, r) => SpecTy::Function(tys_view(ps@), Box::new(ty_view(*r))),
                Ty::Action(ps, r) => SpecTy::Action(tys_view(ps@), Box::new(ty_view(*r))),
                Ty::List(e) => SpecTy::List(Box::new(ty_view(*e))),
                Ty::Array(e) => SpecTy::Array(Box::new(ty_view(*e))),
                Ty::Range(e) => SpecTy::Range(Box::new(ty_view(*e))),
                Ty::SetOf(e) => SpecTy::SetOf(Box::new(ty_view(*e))),
                Ty::Tensor(e) => SpecTy::Tensor(Box::new(ty_view(*e))),
                Ty::Sender(e) => SpecTy::Sender(Box::new(ty_view(*e))),
                Ty::Receiver(e) => SpecTy::Receiver(Box::new(ty_view(*e))),
                Ty::ReceiverFactory(e) => SpecTy::ReceiverFactory(Box::new(ty_view(*e))),
                Ty::Dict(k, v) => SpecTy::Dict(Box::new(ty_view(*k)), Box::new(ty_view(*v))),
                Ty::OverloadSet { name, overloads } => SpecTy::OverloadSet {
                    name: name@,
                    overloads: tys_view(overloads@),
                },
            },
        t matches Ty::Struct(k) ==> key_view(k) == match k {
            StructKey::Plain(n) => SpecStructKey::Plain(n@),
            StructKey::Family(n) => SpecStructKey::Family(n@),
            StructKey::Instance(f, c) => SpecStructKey::Instance(f@, c@),
            StructKey::Generic(n, args) => SpecStructKey::Generic(n@, tys_view(args@)),
        },
{
}

/// The view of a struct type, unfolded through its key.
pub proof fn lemma_struct_view(t: Ty)
    ensures
        t matches Ty::Struct(k) ==> t@ == SpecTy::Struct(key_view(k)) && key_view(k) == match k {
            StructKey::Plain(n) => SpecStructKey::Plain(n@),
            StructKey::Family(n) => SpecStructKey::Family(n@),
            StructKey::Instance(f, c) => SpecStructKey::Instance(f@, c@),
            StructKey::Generic(n, args) => SpecStructKey::Generic(n@, tys_view(args@)),
        },
{
}

/// The name by which a struct key is looked up in the registries:
/// the struct (or family) name.
pub open spec fn spec_key_name(k: SpecStructKey) -> Seq<char> {
    match k {
        SpecStructKey::Plain(n) => n,
        SpecStructKey::Family(n) => n,
        SpecStructKey::Instance(f, _) => f,
        SpecStructKey::Generic(n, _) => n,
    }
}

pub fn key_name(k: &StructKey) -> (r: &String)
    ensures
        r@ == spec_key_name(k@),
{
    match k {
        StructKey::Plain(n) => n,
        StructKey::Family(n) => n,
        StructKey::Instance(f, _) => f,
        StructKey::Generic(n, _) => n,
    }
}

pub fn string_clone(s: &String) -> (r: String)
    ensures
        r@ == s@,
{
    s.clone()
}

/// Deep copy of a list of types.
pub fn tys_clone(ts: &Vec<Ty>) -> (r: Vec<Ty>)
    ensures
        tys_view(r@) == tys_view(ts@),
    decreases ts@, 0nat,
{
    let mut out: Vec<Ty> = Vec::new();
    let mut i: usize = 0;
    while i < ts.len()
        invariant
            i <= ts.len(),
            out@.len() == i,
            forall|j: int| 0 <= j < i ==> ty_view(#[trigger] out@[j]) == ty_view(ts@[j]),
        decreases ts.len() - i,
    {
        proof {
            assert(decreases_to!(ts@ => ts@[i as int]));
        }
        let c = ty_clone(&ts[i]);
        out.push(c);
        i += 1;
    }
    assert(tys_view(out@) =~= tys_view(ts@));
    out
}

/// Deep copy of a type.
pub fn ty_clone(t: &Ty) -> (r: Ty)
    ensures
        r@ == t@,
    decreases t, 1nat,
{
    match t {
        Ty::Prim(p) => Ty::Prim(*p),
        Ty::Unit => Ty::Unit,
        Ty::Bytes => Ty::Bytes,
        Ty::File => Ty::File,
        Ty::Socket => Ty::Socket,
        Ty::Var(n) => Ty::Var(string_clone(n)),
        Ty::InferVar(i) => Ty::InferVar(*i),
        Ty::Interface(n) => Ty::Interface(string_clone(n)),
        Ty::Sum(n) => Ty::Sum(string_clone(n)),
        Ty::Struct(k) => Ty::Struct(key_clone(k)),
        Ty::Generic(n, args) => Ty::Generic(string_clone(n), tys_clone(args)),
        Ty::Tuple(elems) => Ty::Tuple(tys_clone(elems)),
        Ty::Function(ps, r) => Ty::Function(tys_clone(ps), Box::new(ty_clone(r))),
        Ty::Action(ps, r) => Ty::Action(tys_clone(ps), Box::new(ty_clone(r))),
        Ty::List(e) => Ty::List(Box::new(ty_clone(e))),
        Ty::Array(e) => Ty::Array(Box::new(ty_clone(e))),
        Ty::Range(e) => Ty::Range(Box::new(ty_clone(e))),
        Ty::SetOf(e) => Ty::SetOf(Box::new(ty_clone(e))),
        Ty::Tensor(e) => Ty::Tensor(Box::new(ty_clone(e))),
        Ty::Sender(e) => Ty::Sender(Box::new(ty_clone(e))),
        Ty::Receiver(e) => Ty::Receiver(Box::new(ty_clone(e))),
        Ty::ReceiverFactory(e) => Ty::ReceiverFactory(Box::new(ty_clone(e))),
        Ty::Dict(k, v) => Ty::Dict(Box::new(ty_clone(k)), Box::new(ty_clone(v))),
        Ty::OverloadSet { name, overloads } => Ty::OverloadSet {
            name: string_clone(name),
            overloads: tys_clone(overloads),
        },
    }
}

/// Deep copy of a struct key.
pub fn key_clone(k: &StructKey) -> (r: StructKey)
    ensures
        r@ == k@,
    decreases k, 1nat,
{
    match k {
        StructKey::Plain(n) => StructKey::Plain(string_clone(n)),
        StructKey::Family(n) => StructKey::Family(string_clone(n)),
        StructKey::Instance(f, c) => StructKey::Instance(string_clone(f), string_clone(c)),
        StructKey::Generic(n, args) => StructKey::Generic(string_clone(n), tys_clone(args)),
    }
}

/// Structural equality of two lists of types.
pub fn tys_eq(a: &Vec<Ty>, b: &Vec<Ty>) -> (r: bool)
    ensures
        r == (tys_view(a@) == tys_view(b@)),
    decreases a@, 0nat,
{
    if a.len() != b.len() {
        assert(tys_view(a@).len() != tys_view(b@).len());
        return false;
    }
    let mut i: usize = 0;
    while i < a.len()
        invariant
            i <= a.len(),
            a.len() == b.len(),
            forall|j: int| 0 <= j < i ==> ty_view(#[trigger] a@[j]) == ty_view(b@[j]),
        decreases a.len() - i,
    {
        proof {
            assert(decreases_to!(a@ => a@[i as int]));
        }
        if !ty_eq(&a[i], &b[i]) {
            assert(tys_view(a@)[i as int] != tys_view(b@)[i as int]);
            return false;
        }
        i += 1;
    }
    assert(tys_view(a@) =~= tys_view(b@));
    true
}

/// Structural equality of two types.
pub fn ty_eq(a: &Ty, b: &Ty) -> (r: bool)
    ensures
        r == (a@ == b@),
    decreases a, 1nat,
{
    match (a, b) {
        (Ty::Prim(x), Ty::Prim(y)) => *x == *y,
        (Ty::Unit, Ty::Unit) => true,
        (Ty::Bytes, Ty::Bytes) => true,
        (Ty::File, Ty::File) => true,
        (Ty::Socket, Ty::Socket) => true,
        (Ty::Var(x), Ty::Var(y)) => *x == *y,
        (Ty::InferVar(x), Ty::InferVar(y)) => *x == *y,
        (Ty::Interface(x), Ty::Interface(y)) => *x == *y,
        (Ty::Sum(x), Ty::Sum(y)) => *x == *y,
        (Ty::Struct(x), Ty::Struct(y)) => key_eq(x, y),
        (Ty::Generic(n, xs), Ty::Generic(m, ys)) => *n == *m && tys_eq(xs, ys),
        (Ty::Tuple(xs), Ty::Tuple(ys)) => tys_eq(xs, ys),
        (Ty::Function(xs, r), Ty::Function(ys, s)) => tys_eq(xs, ys) && ty_eq(r, s),
        (Ty::Action(xs, r), Ty::Action(ys, s)) => tys_eq(xs, ys) && ty_eq(r, s),
        (Ty::List(x), Ty::List(y)) => ty_eq(x, y),
        (Ty::Array(x), Ty::Array(y)) => ty_eq(x, y),
        (Ty::Range(x), Ty::Range(y)) => ty_eq(x, y),
        (Ty::SetOf(x), Ty::SetOf(y)) => ty_eq(x, y),
        (Ty::Tensor(x), Ty::Tensor(y)) => ty_eq(x, y),
        (Ty::Sender(x), Ty::Sender(y)) => ty_eq(x, y),
        (Ty::Receiver(x), Ty::Receiver(y)) => ty_eq(x, y),
        (Ty::ReceiverFactory(x), Ty::ReceiverFactory(y)) => ty_eq(x, y),
        (Ty::Dict(k, v), Ty::Dict(l, w)) => ty_eq(k, l) && ty_eq(v, w),
        (
            Ty::OverloadSet { name: n, overloads: xs },
            Ty::OverloadSet { name: m, overloads: ys },
        ) => *n == *m && tys_eq(xs, ys),
        _ => false,
    }
}

/// Structural equality of two struct keys.
pub fn key_eq(a: &StructKey, b: &StructKey) -> (r: bool)
    ensures
        r == (a@ == b@),
    decreases a, 1nat,
{
    match (a, b) {
        (StructKey::Plain(x), StructKey::Plain(y)) => *x == *y,
        (StructKey::Family(x), StructKey::Family(y)) => *x == *y,
        (StructKey::Instance(f, c), StructKey::Instance(g, d)) => *f == *g && *c == *d,
        (StructKey::Generic(n, xs), StructKey::Generic(m, ys)) => *n == *m && tys_eq(xs, ys),
        _ => false,
    }
}

impl Ty {
    pub fn int_ty() -> (r: Ty)
        ensures
            r@ == SpecTy::Prim(PrimTy::Int),
    {
        Ty::Prim(PrimTy::Int)
    }

    pub fn float_ty() -> (r: Ty)
        ensures
            r@ == SpecTy::Prim(PrimTy::Float),
    {
        Ty::Prim(PrimTy::Float)
    }

    pub fn rational_ty() -> (r: Ty)
        ensures
            r@ == SpecTy::Prim(PrimTy::Rational),
    {
        Ty::Prim(PrimTy::Rational)
    }

    pub fn text_ty() -> (r: Ty)
        ensures
            r@ == SpecTy::Prim(PrimTy::Text),
    {
        Ty::Prim(PrimTy::Text)
    }
}

} // verus!
