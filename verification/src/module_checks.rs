//! The checks of module inference that do not type an expression: every
//! `refines` delegates to a base type that implements the interface,
//! module constants are named once and apart from the functions and
//! actions, and the last entry expression is the entry point.

use vstd::prelude::*;
use vstd::string::StrSliceExecFns;

use crate::ast::{spec_synthetic, Span, Spanned};
use crate::constructors::OverloadInfo;
use crate::registry::{spec_implements, InterfaceRegistry, RefinesRegistry, SpecRefinesEntry};
use crate::tast::TypedExpr;
use crate::text::{owned, push_str};
use crate::tyops::{spec_ty_name, ty_name};

verus! {

/// Why a module is refused.
pub enum ModuleError {
    /// A `refines` whose base type does not implement the interface.
    NoOverload { name: String, span: Span },
    /// A constant named a second time.
    DuplicateConstant { name: String, span: Span },
    /// A constant named like a function or an action.
    ConstantNameCollision { name: String, span: Span },
    /// A module without an entry expression.
    UnboundName { name: String, span: Span },
}

// ── refines ─────────────────────────────────────────────────────────

/// The delegation `e` is refused: its base type has a name, and that name
/// does not implement the interface.
pub open spec fn spec_bad_refines(e: SpecRefinesEntry, impls: Seq<(Seq<char>, Seq<char>)>) -> bool {
    spec_ty_name(e.base_ty).len() > 0 && !spec_implements(impls, spec_ty_name(e.base_ty), e.interface_name)
}

/// The first refused delegation from position `j` on.
pub open spec fn spec_first_bad_refines(entries: Seq<SpecRefinesEntry>, impls: Seq<(Seq<char>, Seq<char>)>, j: int) -> Option<int>
    decreases entries.len() - j,
{
    if j < 0 || j >= entries.len() {
        None
    } else if spec_bad_refines(entries[j], impls) {
        Some(j)
    } else {
        spec_first_bad_refines(entries, impls, j + 1)
    }
}

/// The message for a refused delegation.
pub open spec fn spec_refines_message(e: SpecRefinesEntry) -> Seq<char> {
    "refines: tipo base "@ + spec_ty_name(e.base_ty) + " não implementa a interface "@ + e.interface_name
}

/// Checks, in registration order, that the base type of each delegation
/// implements the delegated interface (a base type without a name is
/// not checked); the first that does not is refused, at the synthetic span.
pub fn check_refines_bases(refines: &RefinesRegistry, interfaces: &InterfaceRegistry) -> (r: Result<(), ModuleError>)
    ensures
        spec_first_bad_refines(refines@, interfaces@, 0) is None ==> r is Ok,
        spec_first_bad_refines(refines@, interfaces@, 0) matches Some(j) ==> (r matches Err(ModuleError::NoOverload { name, span })
            && name@ == spec_refines_message(refines@[j]) && span == spec_synthetic()),
{
    let mut i: usize = 0;
    while i < refines.len()
        invariant
            i <= refines@.len(),
            spec_first_bad_refines(refines@, interfaces@, i as int) == spec_first_bad_refines(refines@, interfaces@, 0),
        decreases refines@.len() - i,
    {
        let e = refines.entry(i);
        let base_name: &str = ty_name(&e.base_ty);
        let base = owned(base_name);
        if base_name.unicode_len() > 0 && !interfaces.type_implements(&base, &e.interface_name) {
            let mut name = owned("refines: tipo base ");
            push_str(&mut name, base.as_str());
            push_str(&mut name, " não implementa a interface ");
            push_str(&mut name, e.interface_name.as_str());
            return Err(ModuleError::NoOverload { name, span: Span::synthetic() });
        }
        i += 1;
    }
    Ok(())
}

// ── constants ───────────────────────────────────────────────────────

/// The dispatch table holds an overload named `name`.
pub open spec fn spec_table_has(table: Seq<OverloadInfo>, name: Seq<char>) -> bool {
    exists|i: int| 0 <= i < table.len() && (#[trigger] table[i]).name@ == name
}

/// The constant at `j` repeats the name of an earlier one.
pub open spec fn spec_repeats_earlier(cs: Seq<(String, Span)>, j: int) -> bool {
    exists|k: int| 0 <= k < j && (#[trigger] cs[k]).0@ == cs[j].0@
}

/// The first constant, from position `j` on, that is refused: `true` with
/// it for a repeated name, `false` for a name of the dispatch table.
pub open spec fn spec_first_bad_constant(cs: Seq<(String, Span)>, table: Seq<OverloadInfo>, j: int) -> Option<(bool, int)>
    decreases cs.len() - j,
{
    if j < 0 || j >= cs.len() {
        None
    } else if spec_repeats_earlier(cs, j) {
        Some((true, j))
    } else if spec_table_has(table, cs[j].0@) {
        Some((false, j))
    } else {
        spec_first_bad_constant(cs, table, j + 1)
    }
}

fn table_has(table: &Vec<OverloadInfo>, name: &String) -> (r: bool)
    ensures
        r == spec_table_has(table@, name@),
{
    let mut i: usize = 0;
    while i < table.len()
        invariant
            i <= table@.len(),
            forall|k: int| 0 <= k < i ==> (#[trigger] table@[k]).name@ != name@,
        decreases table@.len() - i,
    {
        if table[i].name == *name {
            return true;
        }
        i += 1;
    }
    false
}

fn repeats_earlier(cs: &Vec<(String, Span)>, j: usize) -> (r: bool)
    requires
        j < cs@.len(),
    ensures
        r == spec_repeats_earlier(cs@, j as int),
{
    let mut k: usize = 0;
    while k < j
        invariant
            j < cs@.len(),
            k <= j,
            forall|m: int| 0 <= m < k ==> (#[trigger] cs@[m]).0@ != cs@[j as int].0@,
        decreases j - k,
    {
        if cs[k].0 == cs[j].0 {
            return true;
        }
        k += 1;
    }
    false
}

/// Checks the names of the module constants `constants` (each with the
/// span of its value), in order: a name given twice is refused at its
/// second use, and a name of a function or action of the dispatch table is
/// refused.
pub fn check_constant_names(constants: &Vec<(String, Span)>, table: &Vec<OverloadInfo>) -> (r: Result<(), ModuleError>)
    ensures
        spec_first_bad_constant(constants@, table@, 0) is None ==> r is Ok,
        spec_first_bad_constant(constants@, table@, 0) matches Some((true, j)) ==> (r matches Err(
            ModuleError::DuplicateConstant { name, span },
        ) && name@ == constants@[j].0@ && span == constants@[j].1),
        spec_first_bad_constant(constants@, table@, 0) matches Some((false, j)) ==> (r matches Err(
            ModuleError::ConstantNameCollision { name, span },
        ) && name@ == constants@[j].0@ && span == constants@[j].1),
{
    let mut i: usize = 0;
    while i < constants.len()
        invariant
            i <= constants@.len(),
            spec_first_bad_constant(constants@, table@, i as int) == spec_first_bad_constant(constants@, table@, 0),
        decreases constants@.len() - i,
    {
        if repeats_earlier(constants, i) {
            return Err(ModuleError::DuplicateConstant { name: crate::ty::string_clone(&constants[i].0), span: constants[i].1 });
        }
        if table_has(table, &constants[i].0) {
            return Err(ModuleError::ConstantNameCollision { name: crate::ty::string_clone(&constants[i].0), span: constants[i].1 });
        }
        i += 1;
    }
    Ok(())
}

// ── the entry point ─────────────────────────────────────────────────

/// The typed entry expressions of a module, in order: the last is the
/// entry point and those before it run first. A module without one is
/// refused at `missing_span`.
pub fn split_entry(entries: Vec<Spanned<TypedExpr>>, missing_span: Span) -> (r: Result<
    (Vec<Spanned<TypedExpr>>, Spanned<TypedExpr>),
    ModuleError,
>)
    ensures
        entries@.len() == 0 ==> (r matches Err(ModuleError::UnboundName { name, span }) && name@ == "<entry point>"@
            && span == missing_span),
        entries@.len() > 0 ==> (r matches Ok((pre, entry)) && pre@ == entries@.drop_last() && entry == entries@.last()),
{
    let mut pre = entries;
    match pre.pop() {
        Some(entry) => Ok((pre, entry)),
        None => Err(ModuleError::UnboundName { name: owned("<entry point>"), span: missing_span }),
    }
}

proof fn lemma_first_bad_refines(entries: Seq<SpecRefinesEntry>, impls: Seq<(Seq<char>, Seq<char>)>, j: int)
    requires
        0 <= j <= entries.len(),
    ensures
        spec_first_bad_refines(entries, impls, j) is None <==> forall|i: int| j <= i < entries.len() ==> !spec_bad_refines(#[trigger] entries[i], impls),
        spec_first_bad_refines(entries, impls, j) matches Some(k) ==> j <= k < entries.len() && spec_bad_refines(entries[k], impls)
            && forall|i: int| j <= i < k ==> !spec_bad_refines(#[trigger] entries[i], impls),
    decreases entries.len() - j,
{
    if j < entries.len() {
        lemma_first_bad_refines(entries, impls, j + 1);
    }
}

/// The refines check passes exactly when every delegation's base type has
/// no name or implements the delegated interface; otherwise it reports the
/// first delegation, in registration order, that fails.
pub proof fn law_refines_check(entries: Seq<SpecRefinesEntry>, impls: Seq<(Seq<char>, Seq<char>)>)
    ensures
        spec_first_bad_refines(entries, impls, 0) is None <==> forall|i: int|
            0 <= i < entries.len() ==> (spec_ty_name((#[trigger] entries[i]).base_ty).len() == 0 || spec_implements(
                impls,
                spec_ty_name(entries[i].base_ty),
                entries[i].interface_name,
            )),
        spec_first_bad_refines(entries, impls, 0) matches Some(k) ==> 0 <= k < entries.len() && spec_ty_name(
            entries[k].base_ty,
        ).len() > 0 && !spec_implements(impls, spec_ty_name(entries[k].base_ty), entries[k].interface_name)
            && forall|i: int| 0 <= i < k ==> !spec_bad_refines(#[trigger] entries[i], impls),
{
    lemma_first_bad_refines(entries, impls, 0);
}

proof fn lemma_first_bad_constant(cs: Seq<(String, Span)>, table: Seq<OverloadInfo>, j: int)
    requires
        0 <= j <= cs.len(),
    ensures
        spec_first_bad_constant(cs, table, j) is None <==> forall|i: int|
            j <= i < cs.len() ==> !spec_repeats_earlier(cs, i) && !spec_table_has(table, (#[trigger] cs[i]).0@),
        spec_first_bad_constant(cs, table, j) matches Some((dup, k)) ==> j <= k < cs.len() && (dup <==> spec_repeats_earlier(cs, k))
            && (dup || spec_table_has(table, cs[k].0@)) && forall|i: int|
            j <= i < k ==> !spec_repeats_earlier(cs, i) && !spec_table_has(table, (#[trigger] cs[i]).0@),
    decreases cs.len() - j,
{
    if j < cs.len() {
        lemma_first_bad_constant(cs, table, j + 1);
    }
}

/// The constant names pass exactly when they are pairwise distinct and
/// none names an overload of the dispatch table; otherwise the first
/// constant, in order, that repeats an earlier name or names an overload
/// is reported, a repetition taking precedence.
pub proof fn law_constant_names_check(cs: Seq<(String, Span)>, table: Seq<OverloadInfo>)
    ensures
        spec_first_bad_constant(cs, table, 0) is None <==> (forall|i: int, k: int|
            0 <= k < i < cs.len() ==> (#[trigger] cs[k]).0@ != (#[trigger] cs[i]).0@) && (forall|i: int|
            0 <= i < cs.len() ==> !spec_table_has(table, (#[trigger] cs[i]).0@)),
        spec_first_bad_constant(cs, table, 0) matches Some((true, k)) ==> exists|m: int| 0 <= m < k && (#[trigger] cs[m]).0@ == cs[k].0@,
        spec_first_bad_constant(cs, table, 0) matches Some((false, k)) ==> spec_table_has(table, cs[k].0@) && forall|m: int|
            0 <= m < k ==> (#[trigger] cs[m]).0@ != cs[k].0@,
{
    lemma_first_bad_constant(cs, table, 0);
    if spec_first_bad_constant(cs, table, 0) is None {
        assert forall|i: int, k: int| 0 <= k < i < cs.len() implies (#[trigger] cs[k]).0@ != (#[trigger] cs[i]).0@ by {
            assert(!spec_repeats_earlier(cs, i));
        }
    } else {
        let (dup, k) = spec_first_bad_constant(cs, table, 0)->0;
        if dup {
            assert(spec_repeats_earlier(cs, k));
            assert(!((forall|i: int, m: int| 0 <= m < i < cs.len() ==> (#[trigger] cs[m]).0@ != (#[trigger] cs[i]).0@)));
        } else {
            assert(!spec_repeats_earlier(cs, k));
        }
    }
}

} // verus!
