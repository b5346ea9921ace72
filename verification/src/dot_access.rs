//! `expr.name` and `expr.N` once the receiver `expr` has been typed: a
//! field of a struct, an element of a tuple (a negative index counting from
//! the end, checked against the tuple's length), an index into a
//! collection (handed on to the `at` dispatch), and the errors of the other
//! pairs of receiver type and index.

use vstd::prelude::*;

use crate::ascription::{FieldInfo, StructInfo, StructRegistry};
use crate::ast::{dot_index_view, DotIndex, Span, Spanned, SpecDotIndex};
use crate::tast::{TypedExpr, TypedExprKind};
use crate::ty::{key_name, spec_key_name, string_clone, ty_clone, PrimTy, SpecStructKey, SpecTy, StructKey, Ty};

verus! {

/// The position of the first field of `fs`, from `i` on, named `name`.
pub open spec fn spec_field_index_from(fs: Seq<FieldInfo>, name: Seq<char>, i: int) -> Option<int>
    decreases fs.len() - i,
{
    if i < 0 || i >= fs.len() {
        None
    } else if fs[i].name@ == name {
        Some(i)
    } else {
        spec_field_index_from(fs, name, i + 1)
    }
}

impl StructInfo {
    /// The position of the field named `name`.
    pub open spec fn spec_field_index(&self, name: Seq<char>) -> Option<int> {
        spec_field_index_from(self.fields@, name, 0)
    }

    /// The position of the field named `name`, the first where two share it.
    pub fn find_field(&self, name: &String) -> (r: Option<usize>)
        ensures
            r matches Some(i) ==> self.spec_field_index(name@) == Some(i as int) && i < self.fields@.len(),
            r is None ==> self.spec_field_index(name@) is None,
    {
        let mut i: usize = 0;
        while i < self.fields.len()
            invariant
                i <= self.fields@.len(),
                spec_field_index_from(self.fields@, name@, i as int) == self.spec_field_index(name@),
            decreases self.fields@.len() - i,
        {
            if self.fields[i].name == *name {
                return Some(i);
            }
            i += 1;
        }
        None
    }
}

/// The struct whose fields a key's value has: the concrete type of an
/// instance, else the struct the key names.
pub open spec fn spec_fields_owner(k: SpecStructKey) -> Seq<char> {
    match k {
        SpecStructKey::Instance(_, c) => c,
        _ => spec_key_name(k),
    }
}

/// A receiver type that `.N` indexes through the `at` dispatch.
pub open spec fn spec_indexable_collection(t: SpecTy) -> bool {
    match t {
        SpecTy::List(_) | SpecTy::Array(_) | SpecTy::Bytes | SpecTy::Tensor(_) => true,
        SpecTy::Prim(PrimTy::Text) => true,
        _ => false,
    }
}

/// The position that a tuple index names in a tuple of `len` elements: a
/// negative index counts from the end.
pub open spec fn spec_resolved_index(n: i64, len: int) -> int {
    if n < 0 {
        len + n
    } else {
        n as int
    }
}

/// What a dot access gives: a typed expression, or an index into a
/// collection that the `at` dispatch resolves.
pub enum DotAccess {
    Typed(TypedExpr),
    AtDispatch { receiver: TypedExpr, index: i64 },
}

/// Why a dot access is refused; each span is that of the access.
pub enum DotAccessError {
    /// The struct whose field is read is not registered.
    UnregisteredStruct { name: String, span: Span },
    /// The struct has no field of that name.
    UnknownField { struct_name: String, field_name: String, span: Span },
    /// `.N` on a struct.
    IndexAccessOnStruct { span: Span },
    /// `.N` outside a tuple of `len` elements.
    IndexOutOfBounds { index: i64, len: usize, span: Span },
    /// `.name` on a tuple or a collection.
    FieldAccessOnTuple { span: Span },
    /// `.N` on a type that cannot be indexed.
    NotIndexable { ty: Ty, span: Span },
}

/// `te` reads from `inner` (spanning `expr_span`), at type `ty`, spanning
/// `span`, escaping where `inner` does.
pub open spec fn spec_reads_from(te: TypedExpr, inner: TypedExpr, ty: SpecTy, span: Span, tail_pos: bool) -> bool {
    &&& te.ty@ == ty
    &&& te.span == span
    &&& te.tail_pos == tail_pos
    &&& te.escape == inner.escape
}

/// `kind` reads the field `f`, at position `i`, of the struct `owner` that
/// `inner` (spanning `expr_span`) holds.
pub open spec fn spec_is_field_access(kind: TypedExprKind, inner: TypedExpr, expr_span: Span, owner: Seq<char>, f: Seq<char>, i: int) -> bool {
    kind matches TypedExprKind::FieldAccess { expr, struct_name, field_name, field_index }
        && expr.node == inner && expr.span == expr_span && struct_name@ == owner && field_name@ == f
        && field_index == i
}

/// `kind` reads the element at position `k`, written `n`, of the tuple that
/// `inner` (spanning `expr_span`) holds.
pub open spec fn spec_is_index_access(kind: TypedExprKind, inner: TypedExpr, expr_span: Span, n: i64, k: int) -> bool {
    kind matches TypedExprKind::IndexAccess { expr, index, element_index }
        && expr.node == inner && expr.span == expr_span && index == n && element_index == k as u32
}

/// The outcome of `inner.index` for each pair of receiver type and index.
pub open spec fn spec_dot_outcome(
    r: Result<DotAccess, DotAccessError>,
    inner: TypedExpr,
    expr_span: Span,
    index: SpecDotIndex,
    reg: StructRegistry,
    span: Span,
    tail_pos: bool,
) -> bool {
    match (inner.ty@, index) {
        (SpecTy::Struct(k), SpecDotIndex::Field(f)) => {
            let owner = spec_fields_owner(k);
            match reg.spec_get(owner) {
                None => r matches Err(DotAccessError::UnregisteredStruct { name, span: s }) && name@ == owner && s == span,
                Some(info) => match info.spec_field_index(f) {
                    None => r matches Err(DotAccessError::UnknownField { struct_name, field_name, span: s })
                        && struct_name@ == owner && field_name@ == f && s == span,
                    Some(i) => r matches Ok(DotAccess::Typed(te)) && spec_reads_from(te, inner, info.fields@[i].ty@, span, tail_pos)
                        && spec_is_field_access(te.kind, inner, expr_span, owner, f, i),
                },
            }
        },
        (SpecTy::Struct(_), SpecDotIndex::Int(_)) => r matches Err(DotAccessError::IndexAccessOnStruct { span: s }) && s == span,
        (SpecTy::Tuple(elems), SpecDotIndex::Int(n)) => {
            let k = spec_resolved_index(n, elems.len() as int);
            if 0 <= k < elems.len() {
                r matches Ok(DotAccess::Typed(te)) && spec_reads_from(te, inner, elems[k], span, tail_pos)
                    && spec_is_index_access(te.kind, inner, expr_span, n, k)
            } else {
                r matches Err(DotAccessError::IndexOutOfBounds { index: m, len, span: s }) && m == n && len == elems.len()
                    && s == span
            }
        },
        (SpecTy::Tuple(_), SpecDotIndex::Field(_)) => r matches Err(DotAccessError::FieldAccessOnTuple { span: s }) && s == span,
        (SpecTy::Range(_), SpecDotIndex::Field(_)) => r matches Err(DotAccessError::FieldAccessOnTuple { span: s }) && s == span,
        (t, SpecDotIndex::Int(n)) => if spec_indexable_collection(t) {
            r matches Ok(DotAccess::AtDispatch { receiver, index: m }) && receiver == inner && m == n
        } else {
            r matches Err(DotAccessError::NotIndexable { ty, span: s }) && ty@ == inner.ty@ && s == span
        },
        (t, SpecDotIndex::Field(_)) => if spec_indexable_collection(t) {
            r matches Err(DotAccessError::FieldAccessOnTuple { span: s }) && s == span
        } else {
            r matches Err(DotAccessError::NotIndexable { ty, span: s }) && ty@ == inner.ty@ && s == span
        },
    }
}

fn fields_owner(k: &StructKey) -> (r: String)
    ensures
        r@ == spec_fields_owner(k@),
{
    match k {
        StructKey::Instance(_, c) => string_clone(c),
        _ => string_clone(key_name(k)),
    }
}

/// The position that `n` names in a tuple of `len` elements, where it
/// names one.
fn resolve_tuple_index(n: i64, len: usize) -> (r: Option<usize>)
    ensures
        r matches Some(k) ==> k as int == spec_resolved_index(n, len as int) && k < len,
        r is None ==> !(0 <= spec_resolved_index(n, len as int) < len),
{
    if n < 0 {
        let back: i128 = -(n as i128);
        if back <= len as i128 {
            Some(len - (back as usize))
        } else {
            None
        }
    } else if (n as i128) < (len as i128) {
        Some(n as usize)
    } else {
        None
    }
}

/// `inner.index`, where `inner` is the typed receiver (spanning
/// `expr_span`) and `span` the access's: a field of a struct (of an
/// instance, a field of its concrete type), an element of a tuple, an
/// index into a collection, or the error of the pair.
pub fn resolve_dot_access(
    inner: TypedExpr,
    expr_span: Span,
    index: &DotIndex,
    registry: &StructRegistry,
    span: Span,
    tail_pos: bool,
) -> (r: Result<DotAccess, DotAccessError>)
    ensures
        spec_dot_outcome(r, inner, expr_span, dot_index_view(*index), *registry, span, tail_pos),
{
    proof {
        crate::ty::lemma_ty_view(inner.ty);
    }
    match index {
        DotIndex::Field(f) => {
            let owner: Option<String> = match &inner.ty {
                Ty::Struct(k) => Some(fields_owner(k)),
                _ => None,
            };
            match owner {
                Some(owner) => match registry.get(&owner) {
                    None => Err(DotAccessError::UnregisteredStruct { name: owner, span }),
                    Some(info) => match info.find_field(f) {
                        None => Err(DotAccessError::UnknownField { struct_name: owner, field_name: string_clone(f), span }),
                        Some(i) => {
                            let ty = ty_clone(&info.fields[i].ty);
                            let escape = inner.escape;
                            let ghost old_inner = inner;
                            let kind = TypedExprKind::FieldAccess {
                                expr: Box::new(Spanned::new(inner, expr_span)),
                                struct_name: owner,
                                field_name: string_clone(f),
                                field_index: i,
                            };
                            assert(spec_is_field_access(kind, old_inner, expr_span, owner@, f@, i as int));
                            Ok(DotAccess::Typed(TypedExpr { ty, span, tail_pos, escape, kind }))
                        },
                    },
                },
                None => match &inner.ty {
                    Ty::Tuple(_) | Ty::List(_) | Ty::Array(_) | Ty::Range(_) | Ty::Bytes | Ty::Tensor(_)
                    | Ty::Prim(PrimTy::Text) => Err(DotAccessError::FieldAccessOnTuple { span }),
                    _ => Err(DotAccessError::NotIndexable { ty: ty_clone(&inner.ty), span }),
                },
            }
        },
        DotIndex::Int(n) => {
            let n: i64 = *n;
            let found: Option<(Option<usize>, usize)> = match &inner.ty {
                Ty::Tuple(elems) => Some((resolve_tuple_index(n, elems.len()), elems.len())),
                _ => None,
            };
            match found {
                Some((Some(k), _)) => {
                    let ty = match &inner.ty {
                        Ty::Tuple(elems) => ty_clone(&elems[k]),
                        _ => Ty::Unit,
                    };
                    let escape = inner.escape;
                    let ghost old_inner = inner;
                    let kind = TypedExprKind::IndexAccess {
                        expr: Box::new(Spanned::new(inner, expr_span)),
                        index: n,
                        element_index: #[verifier::truncate] (k as u32),
                    };
                    assert(spec_is_index_access(kind, old_inner, expr_span, n, k as int));
                    Ok(DotAccess::Typed(TypedExpr { ty, span, tail_pos, escape, kind }))
                },
                Some((None, len)) => Err(DotAccessError::IndexOutOfBounds { index: n, len, span }),
                None => match &inner.ty {
                    Ty::Struct(_) => Err(DotAccessError::IndexAccessOnStruct { span }),
                    Ty::List(_) | Ty::Array(_) | Ty::Bytes | Ty::Tensor(_) | Ty::Prim(PrimTy::Text) => {
                        Ok(DotAccess::AtDispatch { receiver: inner, index: n })
                    },
                    _ => Err(DotAccessError::NotIndexable { ty: ty_clone(&inner.ty), span }),
                },
            }
        },
    }
}

/// A tuple index `n` names an element of a tuple of `len` elements exactly
/// when `-len <= n < len`; a negative index names the element `len + n`.
pub proof fn law_tuple_index_range(n: i64, len: int)
    requires
        len >= 0,
    ensures
        (0 <= spec_resolved_index(n, len) < len) <==> (-len <= n < len),
        n < 0 ==> spec_resolved_index(n, len) == len + n,
        n >= 0 ==> spec_resolved_index(n, len) == n,
{
}

/// `.N` on a list, an array, bytes, a text or a tensor is handed on, with
/// the receiver and the index unchanged, to the `at` dispatch, for every
/// element type and index; `.name` on them is refused as a field access
/// on a collection.
pub proof fn law_collections_index_through_at(
    r: Result<DotAccess, DotAccessError>,
    inner: TypedExpr,
    expr_span: Span,
    index: SpecDotIndex,
    reg: StructRegistry,
    span: Span,
    tail_pos: bool,
)
    requires
        spec_dot_outcome(r, inner, expr_span, index, reg, span, tail_pos),
        inner.ty@ is List || inner.ty@ is Array || inner.ty@ is Bytes || inner.ty@ is Tensor
            || inner.ty@ == SpecTy::Prim(PrimTy::Text),
    ensures
        index matches SpecDotIndex::Int(n) ==> (r matches Ok(DotAccess::AtDispatch { receiver, index: m })
            && receiver == inner && m == n),
        index is Field ==> (r matches Err(DotAccessError::FieldAccessOnTuple { span: s }) && s == span),
{
}

/// `.n` on a tuple of `L` elements is accepted exactly when
/// `-L <= n < L`; it reads the element at `n`, or at `L + n` for a negative
/// `n`, at that element's type; otherwise it is refused as out of bounds,
/// reporting `n` and `L`. (Element positions are `u32`: the tuple is taken
/// to have at most `u32::MAX` elements.)
pub proof fn law_tuple_access(
    r: Result<DotAccess, DotAccessError>,
    inner: TypedExpr,
    expr_span: Span,
    n: i64,
    reg: StructRegistry,
    span: Span,
    tail_pos: bool,
)
    requires
        inner.ty@ is Tuple,
        inner.ty@->Tuple_0.len() <= u32::MAX,
        spec_dot_outcome(r, inner, expr_span, SpecDotIndex::Int(n), reg, span, tail_pos),
    ensures
        ({
            let elems = inner.ty@->Tuple_0;
            let len = elems.len() as int;
            &&& (r is Ok) <==> (-len <= n < len)
            &&& (0 <= n < len) ==> (r matches Ok(DotAccess::Typed(te)) && te.ty@ == elems[n as int]
                && te.kind is IndexAccess && te.kind->IndexAccess_element_index as int == n as int)
            &&& (-len <= n < 0) ==> (r matches Ok(DotAccess::Typed(te)) && te.ty@ == elems[len + n]
                && te.kind is IndexAccess && te.kind->IndexAccess_element_index as int == len + n)
            &&& !(-len <= n < len) ==> (r matches Err(DotAccessError::IndexOutOfBounds { index, len: l, .. })
                && index == n && l as int == len)
        }),
{
    let len = inner.ty@->Tuple_0.len() as int;
    if -len <= n < 0 {
        assert(0 <= len + n < len);
    }
}

/// `.f` on a struct reads the field named `f` of the struct registered
/// under the receiver's name (an instance's concrete type), at that
/// field's type and position; it is refused when the struct is not
/// registered or has no field named `f`.
pub proof fn law_struct_field_access(
    r: Result<DotAccess, DotAccessError>,
    inner: TypedExpr,
    expr_span: Span,
    f: Seq<char>,
    reg: StructRegistry,
    span: Span,
    tail_pos: bool,
)
    requires
        inner.ty@ is Struct,
        spec_dot_outcome(r, inner, expr_span, SpecDotIndex::Field(f), reg, span, tail_pos),
    ensures
        ({
            let owner = spec_fields_owner(inner.ty@->Struct_0);
            &&& (r is Ok) <==> (reg.spec_get(owner) matches Some(info) && exists|i: int|
                0 <= i < info.fields@.len() && (#[trigger] info.fields@[i]).name@ == f)
            &&& r matches Ok(DotAccess::Typed(te)) ==> (te.kind is FieldAccess && {
                let i = te.kind->FieldAccess_field_index as int;
                let info = reg.spec_get(owner)->0;
                &&& 0 <= i < info.fields@.len()
                &&& info.fields@[i].name@ == f
                &&& te.ty@ == info.fields@[i].ty@
                &&& forall|j: int| 0 <= j < i ==> (#[trigger] info.fields@[j]).name@ != f
            })
        }),
{
    let owner = spec_fields_owner(inner.ty@->Struct_0);
    match reg.spec_get(owner) {
        Some(info) => {
            lemma_field_index_from(info.fields@, f, 0);
        },
        None => {},
    }
}

/// What the search for a field from position `i` finds: the first field
/// of that name at or after `i`, or none there.
proof fn lemma_field_index_from(fs: Seq<FieldInfo>, name: Seq<char>, i: int)
    requires
        0 <= i <= fs.len(),
    ensures
        spec_field_index_from(fs, name, i) matches Some(k) ==> i <= k < fs.len() && fs[k].name@ == name && forall|j: int|
            i <= j < k ==> (#[trigger] fs[j]).name@ != name,
        spec_field_index_from(fs, name, i) is None ==> forall|j: int| i <= j < fs.len() ==> (#[trigger] fs[j]).name@ != name,
    decreases fs.len() - i,
{
    if i < fs.len() && fs[i].name@ != name {
        lemma_field_index_from(fs, name, i + 1);
    }
}

} // verus!
