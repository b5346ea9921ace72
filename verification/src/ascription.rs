//! Type ascription `expr::T`, once `expr` has been typed and `T` resolved:
//! promotion of a polymorphic family to the instance that the value's type
//! picks, downcasts from an instance, an alias or a refined type to its
//! base, construction of a struct from a tuple, and the literals that may
//! be taken at a wider numeric type.

use vstd::prelude::*;

use crate::ast::{Span, Spanned};
use crate::tast::{TypedExpr, TypedExprKind};
use crate::text::{is_named, owned};
use crate::ty::{key_name, spec_key_name, string_clone, tys_view, ty_eq, PrimTy, SpecStructKey, SpecTy, StructKey, Ty};
use crate::tyops::EscapeTarget;

verus! {

// ── the struct registry ─────────────────────────────────────────────

/// A field of a struct: its name and its type.
pub struct FieldInfo {
    pub name: String,
    pub ty: Ty,
}

/// What the registry knows of a struct: its fields in declaration order,
/// the type it is an alias of (for an alias or a refined type), whether it
/// is refined by predicates, and the family it is an instance of.
pub struct StructInfo {
    pub name: String,
    pub fields: Vec<FieldInfo>,
    pub alias_of: Option<String>,
    pub has_predicates: bool,
    pub is_instance_of: Option<String>,
}

/// The instance of a polymorphic family at a concrete type, such as
/// `NonZero` at `Int`.
pub struct InstanceInfo {
    pub family: String,
    pub concrete: String,
    pub info: StructInfo,
}

/// The declared structs and family instances; a lookup finds the first
/// entry of the name.
pub struct StructRegistry {
    pub structs: Vec<StructInfo>,
    pub instances: Vec<InstanceInfo>,
}

/// The first struct of `s`, from position `i` on, named `name`.
pub open spec fn spec_find_struct_from(s: Seq<StructInfo>, name: Seq<char>, i: int) -> Option<StructInfo>
    decreases s.len() - i,
{
    if i < 0 || i >= s.len() {
        None
    } else if s[i].name@ == name {
        Some(s[i])
    } else {
        spec_find_struct_from(s, name, i + 1)
    }
}

/// The first instance of `s`, from position `i` on, of `family` at `concrete`.
pub open spec fn spec_find_instance_from(s: Seq<InstanceInfo>, family: Seq<char>, concrete: Seq<char>, i: int) -> Option<StructInfo>
    decreases s.len() - i,
{
    if i < 0 || i >= s.len() {
        None
    } else if s[i].family@ == family && s[i].concrete@ == concrete {
        Some(s[i].info)
    } else {
        spec_find_instance_from(s, family, concrete, i + 1)
    }
}

impl StructRegistry {
    /// The struct named `name`.
    pub open spec fn spec_get(&self, name: Seq<char>) -> Option<StructInfo> {
        spec_find_struct_from(self.structs@, name, 0)
    }

    /// The instance of `family` at `concrete`.
    pub open spec fn spec_get_instance(&self, family: Seq<char>, concrete: Seq<char>) -> Option<StructInfo> {
        spec_find_instance_from(self.instances@, family, concrete, 0)
    }

    /// The struct named `name`.
    pub fn get(&self, name: &String) -> (r: Option<&StructInfo>)
        ensures
            r matches Some(info) ==> self.spec_get(name@) == Some(*info),
            r is None ==> self.spec_get(name@) is None,
    {
        let mut i: usize = 0;
        while i < self.structs.len()
            invariant
                i <= self.structs@.len(),
                spec_find_struct_from(self.structs@, name@, i as int) == self.spec_get(name@),
            decreases self.structs@.len() - i,
        {
            if self.structs[i].name == *name {
                return Some(&self.structs[i]);
            }
            i += 1;
        }
        None
    }

    /// The instance of `family` at `concrete`.
    pub fn get_instance(&self, family: &String, concrete: &String) -> (r: Option<&StructInfo>)
        ensures
            r matches Some(info) ==> self.spec_get_instance(family@, concrete@) == Some(*info),
            r is None ==> self.spec_get_instance(family@, concrete@) is None,
    {
        let mut i: usize = 0;
        while i < self.instances.len()
            invariant
                i <= self.instances@.len(),
                spec_find_instance_from(self.instances@, family@, concrete@, i as int)
                    == self.spec_get_instance(family@, concrete@),
            decreases self.instances@.len() - i,
        {
            if self.instances[i].family == *family && self.instances[i].concrete == *concrete {
                return Some(&self.instances[i].info);
            }
            i += 1;
        }
        None
    }
}

// ── the rules ───────────────────────────────────────────────────────

/// The name a primitive type is registered under.
pub open spec fn spec_prim_name(t: SpecTy) -> Option<Seq<char>> {
    match t {
        SpecTy::Prim(PrimTy::Int) => Some("Int"@),
        SpecTy::Prim(PrimTy::Float) => Some("Float"@),
        SpecTy::Prim(PrimTy::Rational) => Some("Rational"@),
        SpecTy::Prim(PrimTy::Text) => Some("Text"@),
        _ => None,
    }
}

/// Whether `base`, the name at the end of an alias, names the type `target`.
pub open spec fn spec_base_matches(target: SpecTy, base: Seq<char>) -> bool {
    match target {
        SpecTy::Prim(_) => spec_prim_name(target) == Some(base),
        SpecTy::Struct(k) => spec_key_name(k) == base,
        _ => false,
    }
}

/// The name of a target that may be a polymorphic family: a family or a
/// plain struct.
pub open spec fn spec_family_candidate(t: SpecTy) -> Option<Seq<char>> {
    match t {
        SpecTy::Struct(SpecStructKey::Family(n)) => Some(n),
        SpecTy::Struct(SpecStructKey::Plain(n)) => Some(n),
        _ => None,
    }
}

/// The target after promotion: a polymorphic family, ascribed to a value of
/// a primitive type at which the family has an instance, becomes that
/// instance; any other target stays.
pub open spec fn spec_promoted_target(reg: StructRegistry, inner_ty: SpecTy, target: SpecTy) -> SpecTy {
    match spec_family_candidate(target) {
        Some(n) => match reg.spec_get(n) {
            Some(info) => match spec_prim_name(inner_ty) {
                Some(c) => if info.is_instance_of is Some && reg.spec_get_instance(n, c) is Some {
                    SpecTy::Struct(SpecStructKey::Instance(n, c))
                } else {
                    target
                },
                None => target,
            },
            None => target,
        },
        None => target,
    }
}

/// A value of an instance type taken at the instance's base (the type it
/// is an alias of, else its concrete type).
pub open spec fn spec_instance_downcast(reg: StructRegistry, inner_ty: SpecTy, target: SpecTy) -> bool {
    match inner_ty {
        SpecTy::Struct(SpecStructKey::Instance(f, c)) => match reg.spec_get_instance(f, c) {
            Some(inst) => spec_base_matches(
                target,
                match inst.alias_of {
                    Some(b) => b@,
                    None => c,
                },
            ),
            None => false,
        },
        _ => false,
    }
}

/// The value's type is a registered alias or refined type, whose chain of
/// aliases is then searched for the target.
pub open spec fn spec_alias_start(reg: StructRegistry, inner_ty: SpecTy) -> Option<Seq<char>> {
    match inner_ty {
        SpecTy::Struct(k) => match reg.spec_get(spec_key_name(k)) {
            Some(info) => if info.alias_of is Some || info.has_predicates {
                Some(spec_key_name(k))
            } else {
                None
            },
            None => None,
        },
        _ => None,
    }
}

/// The search along the aliases from `current` for one that names
/// `target`, in at most `fuel` steps: `None` when the steps run out.
pub open spec fn spec_alias_walk(reg: StructRegistry, target: SpecTy, current: Seq<char>, fuel: nat) -> Option<bool>
    decreases fuel,
{
    if fuel == 0 {
        None
    } else {
        match reg.spec_get(current) {
            None => Some(false),
            Some(info) => match info.alias_of {
                None => Some(false),
                Some(b) => if spec_base_matches(target, b@) {
                    Some(true)
                } else {
                    spec_alias_walk(reg, target, b@, (fuel - 1) as nat)
                },
            },
        }
    }
}

/// The search along the aliases from `start` comes to an end: it finds
/// the target or a name that is no alias.
pub open spec fn spec_alias_walk_ends(reg: StructRegistry, target: SpecTy, start: Seq<char>) -> bool {
    exists|f: nat| #[trigger] spec_alias_walk(reg, target, start, f) is Some
}

/// Enough steps for the search along the aliases from `start` to end,
/// where it ends.
pub open spec fn spec_alias_fuel(reg: StructRegistry, target: SpecTy, start: Seq<char>) -> nat {
    choose|f: nat| #[trigger] spec_alias_walk(reg, target, start, f) is Some
}

/// Whether the search along the aliases from `start` finds `target`.
pub open spec fn spec_alias_found(reg: StructRegistry, target: SpecTy, start: Seq<char>) -> bool {
    spec_alias_walk(reg, target, start, spec_alias_fuel(reg, target, start)) == Some(true)
}

/// Literals that may be taken at another numeric type: an integer at
/// `Int`, `Float` or `Rational`, a float at `Float` or `Rational`, a text at
/// `Text`.
pub open spec fn spec_literal_widens(kind: TypedExprKind, target: SpecTy) -> bool {
    match kind {
        TypedExprKind::IntLit(_) => target == SpecTy::Prim(PrimTy::Int) || target == SpecTy::Prim(PrimTy::Float)
            || target == SpecTy::Prim(PrimTy::Rational),
        TypedExprKind::FloatLit(_) => target == SpecTy::Prim(PrimTy::Float) || target == SpecTy::Prim(PrimTy::Rational),
        TypedExprKind::TextLit(_) => target == SpecTy::Prim(PrimTy::Text),
        _ => false,
    }
}

/// The types of the fields of a struct, in declaration order.
pub open spec fn spec_field_tys(info: StructInfo) -> Seq<SpecTy> {
    Seq::new(info.fields@.len(), |i: int| info.fields@[i].ty@)
}

/// The types of a list of typed expressions.
pub open spec fn spec_element_tys(es: Seq<Spanned<TypedExpr>>) -> Seq<SpecTy> {
    Seq::new(es.len(), |i: int| es[i].node.ty@)
}

/// The rule that an ascription falls under.
pub enum AscriptionRule {
    /// Taken at its base: an instance, an alias or a refined value.
    Downcast,
    /// A literal at a refined type, whose predicates remain to be checked.
    RefinedLiteral,
    /// A non-literal at a refined type.
    NotLiteral,
    /// A tuple taken as a struct with as many fields of the same types.
    Construct,
    /// A tuple with another number of elements than the struct has fields.
    FieldCount,
    /// A tuple whose element types differ from the struct's field types.
    FieldTypes,
    /// A literal at a wider type, or a value at its own type.
    Widen,
    /// None of these.
    Mismatch,
}

/// The struct that a target names, where it is registered.
pub open spec fn spec_target_struct(reg: StructRegistry, target: SpecTy) -> Option<StructInfo> {
    match target {
        SpecTy::Struct(k) => reg.spec_get(spec_key_name(k)),
        _ => None,
    }
}

/// The rule for a value typed `inner` ascribed to the (promoted) `target`,
/// tried in this order.
pub open spec fn spec_ascription_rule(reg: StructRegistry, inner: TypedExpr, target: SpecTy) -> AscriptionRule {
    if spec_instance_downcast(reg, inner.ty@, target) {
        AscriptionRule::Downcast
    } else if spec_alias_start(reg, inner.ty@) is Some && spec_alias_found(
        reg,
        target,
        spec_alias_start(reg, inner.ty@)->0,
    ) {
        AscriptionRule::Downcast
    } else if spec_target_struct(reg, target) matches Some(info) && info.has_predicates {
        if inner.kind is IntLit || inner.kind is FloatLit {
            AscriptionRule::RefinedLiteral
        } else {
            AscriptionRule::NotLiteral
        }
    } else if spec_target_struct(reg, target) matches Some(info) && inner.kind is Tuple && info.fields@.len() > 0
        && info.alias_of is None {
        let info = spec_target_struct(reg, target)->0;
        let elements = inner.kind->Tuple_elements@;
        if elements.len() != info.fields@.len() {
            AscriptionRule::FieldCount
        } else if spec_element_tys(elements) == spec_field_tys(info) {
            AscriptionRule::Construct
        } else {
            AscriptionRule::FieldTypes
        }
    } else if spec_literal_widens(inner.kind, target) || inner.ty@ == target {
        AscriptionRule::Widen
    } else {
        AscriptionRule::Mismatch
    }
}

/// The ascription terminates: where the alias chain of the value's type is
/// searched, the search comes to an end.
pub open spec fn spec_ascription_ends(reg: StructRegistry, inner_ty: SpecTy, target: SpecTy) -> bool {
    !spec_instance_downcast(reg, inner_ty, target) && spec_alias_start(reg, inner_ty) is Some
        ==> spec_alias_walk_ends(reg, target, spec_alias_start(reg, inner_ty)->0)
}

/// The arena a value escapes to: the caller's, unless it is computed in a
/// function that returns a value and is not in tail position.
pub open spec fn spec_value_escape(returns_value: bool, tail_pos: bool) -> EscapeTarget {
    if returns_value && !tail_pos {
        EscapeTarget::Local
    } else {
        EscapeTarget::Caller
    }
}

// ── outcome ─────────────────────────────────────────────────────────

/// What an ascription gives: a typed expression, or a literal at a refined
/// type whose predicates the caller checks next.
pub enum Ascribed {
    Typed(TypedExpr),
    RefinedLiteral { inner: TypedExpr, target_ty: Ty },
}

/// Why an ascription is refused; each span is that of the ascribed value.
pub enum AscriptionError {
    /// The value's type is not the target and cannot be taken at it.
    TypeMismatch { expected: Ty, found: Ty, span: Span },
    /// Only a literal can be ascribed a refined type.
    RefinedNeedsLiteral { name: String, span: Span },
    /// A tuple with another number of elements than the struct has fields.
    FieldCountMismatch { name: String, fields: usize, elements: usize, span: Span },
    /// A tuple whose element types are not the struct's field types.
    FieldTypesMismatch { name: String, fields: Vec<Ty>, elements: Vec<Ty>, span: Span },
}

/// `te` is `inner` taken at `target`: a `TypeAscription` with no pending
/// predicate, spanning `span`, whose operand spans `expr_span`.
pub open spec fn spec_is_ascription(
    te: TypedExpr,
    inner: TypedExpr,
    expr_span: Span,
    target: SpecTy,
    span: Span,
    returns_value: bool,
    tail_pos: bool,
) -> bool {
    &&& te.ty@ == target
    &&& te.span == span
    &&& te.tail_pos == tail_pos
    &&& te.escape == spec_value_escape(returns_value, tail_pos)
    &&& te.kind matches TypedExprKind::TypeAscription { expr, target_ty, pending_predicates }
        && expr.node == inner && expr.span == expr_span && target_ty@ == target && pending_predicates@.len() == 0
}

/// `te` is the struct `name` built from the tuple `inner`'s elements.
pub open spec fn spec_is_construction(
    te: TypedExpr,
    inner: TypedExpr,
    name: Seq<char>,
    target: SpecTy,
    span: Span,
    returns_value: bool,
    tail_pos: bool,
) -> bool {
    &&& te.ty@ == target
    &&& te.span == span
    &&& te.tail_pos == tail_pos
    &&& te.escape == spec_value_escape(returns_value, tail_pos)
    &&& inner.kind is Tuple
    &&& te.kind matches TypedExprKind::StructConstruct { struct_name, values } && struct_name@ == name
        && values@ == inner.kind->Tuple_elements@
}

/// The outcome of an ascription under each rule.
pub open spec fn spec_ascription_outcome(
    r: Result<Ascribed, AscriptionError>,
    reg: StructRegistry,
    inner: TypedExpr,
    expr_span: Span,
    target: SpecTy,
    span: Span,
    returns_value: bool,
    tail_pos: bool,
) -> bool {
    let name = match target {
        SpecTy::Struct(k) => spec_key_name(k),
        _ => Seq::empty(),
    };
    match spec_ascription_rule(reg, inner, target) {
        AscriptionRule::Downcast | AscriptionRule::Widen => r matches Ok(Ascribed::Typed(te))
            && spec_is_ascription(te, inner, expr_span, target, span, returns_value, tail_pos),
        AscriptionRule::RefinedLiteral => r matches Ok(Ascribed::RefinedLiteral { inner: i, target_ty })
            && i == inner && target_ty@ == target,
        AscriptionRule::NotLiteral => r matches Err(AscriptionError::RefinedNeedsLiteral { name: n, span: s })
            && n@ == name && s == expr_span,
        AscriptionRule::Construct => r matches Ok(Ascribed::Typed(te))
            && spec_is_construction(te, inner, name, target, span, returns_value, tail_pos),
        AscriptionRule::FieldCount => r matches Err(AscriptionError::FieldCountMismatch { name: n, fields, elements, span: s })
            && n@ == name && s == expr_span
            && fields == spec_target_struct(reg, target)->0.fields@.len()
            && elements == inner.kind->Tuple_elements@.len(),
        AscriptionRule::FieldTypes => r matches Err(AscriptionError::FieldTypesMismatch { name: n, fields, elements, span: s })
            && n@ == name && s == expr_span
            && tys_view(fields@) == spec_field_tys(spec_target_struct(reg, target)->0)
            && tys_view(elements@) == spec_element_tys(inner.kind->Tuple_elements@),
        AscriptionRule::Mismatch => r matches Err(AscriptionError::TypeMismatch { expected, found, span: s })
            && expected@ == target && found@ == inner.ty@ && s == expr_span,
    }
}

// ── executable pieces ───────────────────────────────────────────────

fn prim_name(t: &Ty) -> (r: Option<String>)
    ensures
        r matches Some(n) ==> spec_prim_name(t@) == Some(n@),
        r is None ==> spec_prim_name(t@) is None,
{
    proof {
        crate::ty::lemma_ty_view(*t);
    }
    match t {
        Ty::Prim(PrimTy::Int) => Some(owned("Int")),
        Ty::Prim(PrimTy::Float) => Some(owned("Float")),
        Ty::Prim(PrimTy::Rational) => Some(owned("Rational")),
        Ty::Prim(PrimTy::Text) => Some(owned("Text")),
        _ => None,
    }
}

fn base_matches(target: &Ty, base: &String) -> (r: bool)
    ensures
        r == spec_base_matches(target@, base@),
{
    proof {
        crate::ty::lemma_ty_view(*target);
    }
    match target {
        Ty::Prim(PrimTy::Int) => is_named(base, "Int"),
        Ty::Prim(PrimTy::Float) => is_named(base, "Float"),
        Ty::Prim(PrimTy::Rational) => is_named(base, "Rational"),
        Ty::Prim(PrimTy::Text) => is_named(base, "Text"),
        Ty::Struct(k) => *key_name(k) == *base,
        _ => false,
    }
}

/// The target after promotion of a polymorphic family to the instance at
/// the value's primitive type.
pub fn promote_target(registry: &StructRegistry, inner_ty: &Ty, target: Ty) -> (r: Ty)
    ensures
        r@ == spec_promoted_target(*registry, inner_ty@, target@),
{
    proof {
        crate::ty::lemma_ty_view(target);
    }
    let family: Option<String> = match &target {
        Ty::Struct(StructKey::Family(n)) => Some(string_clone(n)),
        Ty::Struct(StructKey::Plain(n)) => Some(string_clone(n)),
        _ => None,
    };
    assert(family matches Some(n) ==> spec_family_candidate(target@) == Some(n@));
    assert(family is None ==> spec_family_candidate(target@) is None);
    match family {
        None => target,
        Some(n) => match registry.get(&n) {
            None => target,
            Some(info) => match prim_name(inner_ty) {
                None => target,
                Some(c) => {
                    if info.is_instance_of.is_some() && registry.get_instance(&n, &c).is_some() {
                        let r = Ty::Struct(StructKey::Instance(n, c));
                        proof {
                            crate::ty::lemma_ty_view(r);
                        }
                        r
                    } else {
                        target
                    }
                },
            },
        },
    }
}

fn instance_downcast(registry: &StructRegistry, inner_ty: &Ty, target: &Ty) -> (r: bool)
    ensures
        r == spec_instance_downcast(*registry, inner_ty@, target@),
{
    proof {
        crate::ty::lemma_ty_view(*inner_ty);
    }
    match inner_ty {
        Ty::Struct(StructKey::Instance(f, c)) => match registry.get_instance(f, c) {
            None => false,
            Some(inst) => match &inst.alias_of {
                Some(b) => base_matches(target, b),
                None => base_matches(target, c),
            },
        },
        _ => false,
    }
}

fn alias_start(registry: &StructRegistry, inner_ty: &Ty) -> (r: Option<String>)
    ensures
        r matches Some(n) ==> spec_alias_start(*registry, inner_ty@) == Some(n@),
        r is None ==> spec_alias_start(*registry, inner_ty@) is None,
{
    proof {
        crate::ty::lemma_ty_view(*inner_ty);
    }
    match inner_ty {
        Ty::Struct(k) => match registry.get(key_name(k)) {
            Some(info) => if info.alias_of.is_some() || info.has_predicates {
                Some(string_clone(key_name(k)))
            } else {
                None
            },
            None => None,
        },
        _ => None,
    }
}

/// Searches the aliases from `start` for one that names `target`.
fn alias_walk(registry: &StructRegistry, target: &Ty, start: &String) -> (r: bool)
    requires
        spec_alias_walk_ends(*registry, target@, start@),
    ensures
        r == spec_alias_found(*registry, target@, start@),
{
    let ghost f: nat = spec_alias_fuel(*registry, target@, start@);
    let ghost mut fuel: nat = f;
    let mut current = string_clone(start);
    loop
        invariant
            f == spec_alias_fuel(*registry, target@, start@),
            spec_alias_walk(*registry, target@, current@, fuel) is Some,
            spec_alias_walk(*registry, target@, current@, fuel) == spec_alias_walk(*registry, target@, start@, f),
        decreases fuel,
    {
        assert(fuel > 0);
        match registry.get(&current) {
            None => return false,
            Some(info) => match &info.alias_of {
                None => return false,
                Some(b) => {
                    if base_matches(target, b) {
                        return true;
                    }
                    current = string_clone(b);
                    proof {
                        fuel = (fuel - 1) as nat;
                    }
                },
            },
        }
    }
}

fn value_escape(returns_value: bool, tail_pos: bool) -> (r: EscapeTarget)
    ensures
        r == spec_value_escape(returns_value, tail_pos),
{
    if returns_value && !tail_pos {
        EscapeTarget::Local
    } else {
        EscapeTarget::Caller
    }
}

fn ascription_node(inner: TypedExpr, expr_span: Span, target: Ty, span: Span, returns_value: bool, tail_pos: bool) -> (r: TypedExpr)
    ensures
        spec_is_ascription(r, inner, expr_span, target@, span, returns_value, tail_pos),
{
    TypedExpr {
        ty: crate::ty::ty_clone(&target),
        span,
        tail_pos,
        escape: value_escape(returns_value, tail_pos),
        kind: TypedExprKind::TypeAscription {
            expr: Box::new(Spanned::new(inner, expr_span)),
            target_ty: target,
            pending_predicates: Vec::new(),
        },
    }
}

pub(crate) fn field_tys(info: &StructInfo) -> (r: Vec<Ty>)
    ensures
        tys_view(r@) == spec_field_tys(*info),
{
    let mut r: Vec<Ty> = Vec::new();
    let mut i: usize = 0;
    while i < info.fields.len()
        invariant
            i <= info.fields@.len(),
            r@.len() == i,
            forall|j: int| 0 <= j < i ==> #[trigger] r@[j]@ == info.fields@[j].ty@,
        decreases info.fields@.len() - i,
    {
        r.push(crate::ty::ty_clone(&info.fields[i].ty));
        i += 1;
    }
    assert forall|k: int| 0 <= k < r@.len() implies tys_view(r@)[k] == spec_field_tys(*info)[k] by {
        assert(r@[k]@ == info.fields@[k].ty@);
    }
    assert(tys_view(r@) =~= spec_field_tys(*info));
    r
}

fn element_tys(es: &Vec<Spanned<TypedExpr>>) -> (r: Vec<Ty>)
    ensures
        tys_view(r@) == spec_element_tys(es@),
{
    let mut r: Vec<Ty> = Vec::new();
    let mut i: usize = 0;
    while i < es.len()
        invariant
            i <= es@.len(),
            r@.len() == i,
            forall|j: int| 0 <= j < i ==> #[trigger] r@[j]@ == es@[j].node.ty@,
        decreases es@.len() - i,
    {
        r.push(crate::ty::ty_clone(&es[i].node.ty));
        i += 1;
    }
    assert forall|k: int| 0 <= k < r@.len() implies tys_view(r@)[k] == spec_element_tys(es@)[k] by {
        assert(r@[k]@ == es@[k].node.ty@);
    }
    assert(tys_view(r@) =~= spec_element_tys(es@));
    r
}

/// Whether each element of the tuple has the type of the field at its
/// position (the two of equal length).
fn elements_fit_fields(es: &Vec<Spanned<TypedExpr>>, info: &StructInfo) -> (r: bool)
    requires
        es@.len() == info.fields@.len(),
    ensures
        r == (spec_element_tys(es@) == spec_field_tys(*info)),
{
    let mut i: usize = 0;
    while i < es.len()
        invariant
            i <= es@.len(),
            es@.len() == info.fields@.len(),
            forall|j: int| 0 <= j < i ==> spec_element_tys(es@)[j] == spec_field_tys(*info)[j],
        decreases es@.len() - i,
    {
        if !ty_eq(&es[i].node.ty, &info.fields[i].ty) {
            assert(spec_element_tys(es@)[i as int] != spec_field_tys(*info)[i as int]);
            return false;
        }
        i += 1;
    }
    assert(spec_element_tys(es@) =~= spec_field_tys(*info));
    true
}

/// `inner::target_ty`, where `inner` is the typed value and `target_ty`
/// the resolved type: the family is promoted to its instance, then the
/// rules are tried in order (downcast from an instance, downcast along an
/// alias chain, a refined target, construction of a struct from a tuple,
/// a literal at a wider type or a value at its own type). `span` is the
/// ascription's, `expr_span` the value's; `returns_value` says whether the
/// enclosing function returns a value.
pub fn resolve_ascription(
    inner: TypedExpr,
    expr_span: Span,
    target_ty: Ty,
    registry: &StructRegistry,
    span: Span,
    returns_value: bool,
    tail_pos: bool,
) -> (r: Result<Ascribed, AscriptionError>)
    requires
        spec_ascription_ends(*registry, inner.ty@, spec_promoted_target(*registry, inner.ty@, target_ty@)),
    ensures
        spec_ascription_outcome(
            r,
            *registry,
            inner,
            expr_span,
            spec_promoted_target(*registry, inner.ty@, target_ty@),
            span,
            returns_value,
            tail_pos,
        ),
{
    let target = promote_target(registry, &inner.ty, target_ty);
    if instance_downcast(registry, &inner.ty, &target) {
        return Ok(Ascribed::Typed(ascription_node(inner, expr_span, target, span, returns_value, tail_pos)));
    }
    match alias_start(registry, &inner.ty) {
        Some(start) => {
            if alias_walk(registry, &target, &start) {
                return Ok(Ascribed::Typed(ascription_node(inner, expr_span, target, span, returns_value, tail_pos)));
            }
        },
        None => {},
    }
    proof {
        crate::ty::lemma_ty_view(target);
    }
    let name: Option<String> = match &target {
        Ty::Struct(k) => Some(string_clone(key_name(k))),
        _ => None,
    };
    match name {
        Some(name) => {
            match registry.get(&name) {
                Some(info) => {
                    if info.has_predicates {
                        let is_literal = match &inner.kind {
                            TypedExprKind::IntLit(_) => true,
                            TypedExprKind::FloatLit(_) => true,
                            _ => false,
                        };
                        if is_literal {
                            return Ok(Ascribed::RefinedLiteral { inner, target_ty: target });
                        }
                        return Err(AscriptionError::RefinedNeedsLiteral { name, span: expr_span });
                    }
                    if info.fields.len() > 0 && info.alias_of.is_none() {
                        let counts: Option<(usize, bool)> = match &inner.kind {
                            TypedExprKind::Tuple { elements } => {
                                if elements.len() != info.fields.len() {
                                    Some((elements.len(), false))
                                } else {
                                    Some((elements.len(), elements_fit_fields(elements, info)))
                                }
                            },
                            _ => None,
                        };
                        match counts {
                            Some((n, fits)) => {
                                if n != info.fields.len() {
                                    return Err(AscriptionError::FieldCountMismatch {
                                        name,
                                        fields: info.fields.len(),
                                        elements: n,
                                        span: expr_span,
                                    });
                                }
                                if !fits {
                                    let fields = field_tys(info);
                                    let elements = match &inner.kind {
                                        TypedExprKind::Tuple { elements } => element_tys(elements),
                                        _ => Vec::new(),
                                    };
                                    return Err(AscriptionError::FieldTypesMismatch {
                                        name,
                                        fields,
                                        elements,
                                        span: expr_span,
                                    });
                                }
                                let ghost old_inner = inner;
                                let ty = crate::ty::ty_clone(&target);
                                let escape = value_escape(returns_value, tail_pos);
                                let values = match inner.kind {
                                    TypedExprKind::Tuple { elements } => elements,
                                    _ => Vec::new(),
                                };
                                let te = TypedExpr {
                                    ty,
                                    span,
                                    tail_pos,
                                    escape,
                                    kind: TypedExprKind::StructConstruct { struct_name: name, values },
                                };
                                assert(spec_is_construction(te, old_inner, name@, target@, span, returns_value, tail_pos));
                                return Ok(Ascribed::Typed(te));
                            },
                            None => {},
                        }
                    }
                },
                None => {},
            }
        },
        None => {},
    }
    let widens = match (&inner.kind, &target) {
        (TypedExprKind::IntLit(_), Ty::Prim(PrimTy::Int)) => true,
        (TypedExprKind::IntLit(_), Ty::Prim(PrimTy::Float)) => true,
        (TypedExprKind::IntLit(_), Ty::Prim(PrimTy::Rational)) => true,
        (TypedExprKind::FloatLit(_), Ty::Prim(PrimTy::Float)) => true,
        (TypedExprKind::FloatLit(_), Ty::Prim(PrimTy::Rational)) => true,
        (TypedExprKind::TextLit(_), Ty::Prim(PrimTy::Text)) => true,
        _ => ty_eq(&inner.ty, &target),
    };
    if widens {
        Ok(Ascribed::Typed(ascription_node(inner, expr_span, target, span, returns_value, tail_pos)))
    } else {
        Err(AscriptionError::TypeMismatch { expected: target, found: inner.ty, span: expr_span })
    }
}

/// A value ascribed its own primitive type is accepted as it is.
pub proof fn law_ascription_to_own_primitive(reg: StructRegistry, inner: TypedExpr, target: SpecTy)
    requires
        target is Prim,
        inner.ty@ == target,
    ensures
        spec_promoted_target(reg, inner.ty@, target) == target,
        spec_ascription_ends(reg, inner.ty@, target),
        spec_ascription_rule(reg, inner, target) == AscriptionRule::Widen,
{
}

/// `r` accepts the ascription as a typed value at `target`.
pub open spec fn spec_accepted_at(r: Result<Ascribed, AscriptionError>, target: SpecTy) -> bool {
    r matches Ok(Ascribed::Typed(te)) && te.ty@ == target && te.kind is TypeAscription
}

/// Literals taken at a primitive type: an integer literal is accepted at
/// `Int`, `Float` and `Rational`; a float literal at `Float` and
/// `Rational`; a text literal at `Text`; every other pair is refused with
/// a type mismatch. This holds whatever the registry and the literal's
/// value.
pub proof fn law_literal_ascription(
    r: Result<Ascribed, AscriptionError>,
    reg: StructRegistry,
    inner: TypedExpr,
    expr_span: Span,
    p: PrimTy,
    span: Span,
    returns_value: bool,
    tail_pos: bool,
)
    requires
        inner.kind is IntLit && inner.ty@ == SpecTy::Prim(PrimTy::Int) || inner.kind is FloatLit && inner.ty@
            == SpecTy::Prim(PrimTy::Float) || inner.kind is TextLit && inner.ty@ == SpecTy::Prim(PrimTy::Text),
        spec_ascription_outcome(
            r,
            reg,
            inner,
            expr_span,
            spec_promoted_target(reg, inner.ty@, SpecTy::Prim(p)),
            span,
            returns_value,
            tail_pos,
        ),
    ensures
        spec_promoted_target(reg, inner.ty@, SpecTy::Prim(p)) == SpecTy::Prim(p),
        inner.kind is IntLit ==> (spec_accepted_at(r, SpecTy::Prim(p)) <==> p != PrimTy::Text),
        inner.kind is FloatLit ==> (spec_accepted_at(r, SpecTy::Prim(p)) <==> (p == PrimTy::Float || p == PrimTy::Rational)),
        inner.kind is TextLit ==> (spec_accepted_at(r, SpecTy::Prim(p)) <==> p == PrimTy::Text),
        !spec_accepted_at(r, SpecTy::Prim(p)) ==> r matches Err(AscriptionError::TypeMismatch { .. }),
{
}

/// A tuple ascribed a registered struct with fields (no alias, not
/// refined) builds the struct when it has one element per field, each of
/// the field's type, with the elements as the field values in order; a
/// tuple of another length, or with an element of another type, is
/// refused.
pub proof fn law_tuple_builds_struct(
    r: Result<Ascribed, AscriptionError>,
    reg: StructRegistry,
    inner: TypedExpr,
    expr_span: Span,
    s: Seq<char>,
    span: Span,
    returns_value: bool,
    tail_pos: bool,
)
    requires
        inner.kind is Tuple,
        inner.ty@ is Tuple,
        reg.spec_get(s) matches Some(info) && !info.has_predicates && info.alias_of is None && info.fields@.len() > 0,
        spec_ascription_outcome(
            r,
            reg,
            inner,
            expr_span,
            spec_promoted_target(reg, inner.ty@, SpecTy::Struct(SpecStructKey::Plain(s))),
            span,
            returns_value,
            tail_pos,
        ),
    ensures
        ({
            let info = reg.spec_get(s)->0;
            let es = inner.kind->Tuple_elements@;
            let fits = es.len() == info.fields@.len() && forall|i: int|
                0 <= i < es.len() ==> (#[trigger] es[i]).node.ty@ == info.fields@[i].ty@;
            &&& spec_promoted_target(reg, inner.ty@, SpecTy::Struct(SpecStructKey::Plain(s)))
                == SpecTy::Struct(SpecStructKey::Plain(s))
            &&& fits ==> (r matches Ok(Ascribed::Typed(te)) && te.ty@ == SpecTy::Struct(SpecStructKey::Plain(s))
                && te.kind is StructConstruct && te.kind->StructConstruct_struct_name@ == s
                && te.kind->StructConstruct_values@ == es)
            &&& es.len() != info.fields@.len() ==> (r matches Err(AscriptionError::FieldCountMismatch { fields, elements, .. })
                && fields == info.fields@.len() && elements == es.len())
            &&& (es.len() == info.fields@.len() && !fits) ==> r matches Err(AscriptionError::FieldTypesMismatch { .. })
        }),
{
    let info = reg.spec_get(s)->0;
    let es = inner.kind->Tuple_elements@;
    if es.len() == info.fields@.len() {
        if forall|i: int| 0 <= i < es.len() ==> (#[trigger] es[i]).node.ty@ == info.fields@[i].ty@ {
            assert(spec_element_tys(es) =~= spec_field_tys(info));
        } else {
            let i = choose|i: int| 0 <= i < es.len() && (#[trigger] es[i]).node.ty@ != info.fields@[i].ty@;
            assert(spec_element_tys(es)[i] != spec_field_tys(info)[i]);
        }
    }
}

/// A value of an alias (or refined) type is accepted at the type its alias
/// names, a primitive or a struct.
pub proof fn law_alias_downcast(
    r: Result<Ascribed, AscriptionError>,
    reg: StructRegistry,
    inner: TypedExpr,
    expr_span: Span,
    a: Seq<char>,
    target: SpecTy,
    span: Span,
    returns_value: bool,
    tail_pos: bool,
)
    requires
        inner.ty@ == SpecTy::Struct(SpecStructKey::Plain(a)),
        reg.spec_get(a) matches Some(info) && info.alias_of is Some && {
            let b = info.alias_of->0@;
            target == SpecTy::Struct(SpecStructKey::Plain(b)) || (target is Prim && spec_prim_name(target) == Some(b))
        },
        spec_ascription_outcome(r, reg, inner, expr_span, spec_promoted_target(reg, inner.ty@, target), span, returns_value, tail_pos),
    ensures
        spec_promoted_target(reg, inner.ty@, target) == target,
        spec_ascription_ends(reg, inner.ty@, target),
        spec_accepted_at(r, target),
{
    assert(spec_alias_walk(reg, target, a, 1) == Some(true));
    let f = spec_alias_fuel(reg, target, a);
    assert(spec_alias_walk(reg, target, a, f) is Some);
    assert(f > 0);
}

/// A value of a primitive type ascribed a polymorphic family that has an
/// instance at that primitive is taken at the instance (`3::NonZero` is
/// `NonZero` at `Int`); without such an instance the target stays.
pub proof fn law_family_promotion(reg: StructRegistry, p: PrimTy, f: Seq<char>)
    requires
        reg.spec_get(f) matches Some(info) && info.is_instance_of is Some,
    ensures
        ({
            let c = spec_prim_name(SpecTy::Prim(p))->0;
            let fam = SpecTy::Struct(SpecStructKey::Family(f));
            &&& reg.spec_get_instance(f, c) is Some ==> spec_promoted_target(reg, SpecTy::Prim(p), fam)
                == SpecTy::Struct(SpecStructKey::Instance(f, c))
            &&& reg.spec_get_instance(f, c) is None ==> spec_promoted_target(reg, SpecTy::Prim(p), fam) == fam
        }),
        spec_prim_name(SpecTy::Prim(PrimTy::Int)) == Some("Int"@),
{
}

/// A value of an instance type is accepted at its concrete primitive
/// type (the instance being registered with no alias of its own).
pub proof fn law_instance_downcast(
    r: Result<Ascribed, AscriptionError>,
    reg: StructRegistry,
    inner: TypedExpr,
    expr_span: Span,
    f: Seq<char>,
    p: PrimTy,
    span: Span,
    returns_value: bool,
    tail_pos: bool,
)
    requires
        inner.ty@ == SpecTy::Struct(SpecStructKey::Instance(f, spec_prim_name(SpecTy::Prim(p))->0)),
        reg.spec_get_instance(f, spec_prim_name(SpecTy::Prim(p))->0) matches Some(inst) && inst.alias_of is None,
        spec_ascription_outcome(
            r,
            reg,
            inner,
            expr_span,
            spec_promoted_target(reg, inner.ty@, SpecTy::Prim(p)),
            span,
            returns_value,
            tail_pos,
        ),
    ensures
        spec_ascription_ends(reg, inner.ty@, SpecTy::Prim(p)),
        spec_accepted_at(r, SpecTy::Prim(p)),
{
}

} // verus!
