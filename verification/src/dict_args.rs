//! Calls of an action with named arguments, `f!({"b": 2, "a": 1})`: the
//! entries are put in the order of the action's parameters.

use vstd::prelude::*;

use crate::ast::Span;
use crate::const_eval::TypeMismatch;
use crate::tast::{TypedExpr, TypedExprKind};
use crate::text::{owned, push_str};
use crate::ty::{tys_view, ty_clone, SpecTy, Ty};
use crate::tyops::EscapeTarget;
use crate::ast::Spanned;

verus! {

/// What the dispatch table knows of one overload of a callee: whether it
/// is an action, and its parameter names (`None` for an unnamed one).
pub struct OverloadParams {
    pub is_action: bool,
    pub param_names: Vec<Option<String>>,
}

/// Why a call with named arguments is refused.
pub enum DictArgsError {
    /// The callee is not declared.
    UnboundName { name: String, span: Span },
    /// The call does not fit the action's parameters.
    TypeMismatch(TypeMismatch),
}

/// The same refusals, over plain values.
pub enum SpecDictArgsError {
    UnboundName { name: Seq<char>, span: Span },
    TypeMismatch { expected: Seq<char>, found: Seq<char>, span: Span },
}

/// The overload whose parameter names are used: the first action with
/// named parameters.
pub open spec fn is_first_named(ovs: Seq<OverloadParams>, i: int) -> bool {
    &&& 0 <= i < ovs.len()
    &&& ovs[i].is_action && ovs[i].param_names@.len() > 0
    &&& forall|j: int| 0 <= j < i ==> !(#[trigger] ovs[j].is_action && ovs[j].param_names@.len() > 0)
}

/// The parameter names as plain values.
pub open spec fn names_of(names: Seq<Option<String>>) -> Seq<Option<Seq<char>>> {
    Seq::new(
        names.len(),
        |i: int|
            match names[i] {
                Some(n) => Some(n@),
                None => None,
            },
    )
}

/// `i` is the last position of the parameter named `key`.
pub open spec fn is_last_match(names: Seq<Option<Seq<char>>>, key: Seq<char>, i: int) -> bool {
    &&& 0 <= i < names.len()
    &&& names[i] == Some(key)
    &&& forall|j: int| i < j < names.len() ==> #[trigger] names[j] != Some(key)
}

/// The position of the parameter named `key`; when two parameters share a
/// name, the later one.
pub open spec fn param_index(names: Seq<Option<Seq<char>>>, key: Seq<char>) -> Option<int> {
    if exists|i: int| is_last_match(names, key, i) {
        Some(choose|i: int| is_last_match(names, key, i))
    } else {
        None
    }
}

/// The name of an entry's key when the key is a text literal.
pub open spec fn key_text(k: Spanned<TypedExpr>) -> Option<Seq<char>> {
    match k.node.kind {
        TypedExprKind::TextLit(t) => Some(t@),
        _ => None,
    }
}

pub open spec fn mismatch(expected: Seq<char>, found: Seq<char>, span: Span) -> SpecDictArgsError {
    SpecDictArgsError::TypeMismatch { expected, found, span }
}

/// The entries `0..n` placed into parameter slots: `slots[p]` is the entry
/// that gives parameter `p`. Each entry needs a text key naming a
/// parameter not given before.
pub open spec fn fill_slots(
    callee: Seq<char>,
    names: Seq<Option<Seq<char>>>,
    keys: Seq<(Option<Seq<char>>, Span)>,
    n: nat,
) -> Result<Seq<Option<int>>, SpecDictArgsError>
    decreases n,
{
    if n == 0 {
        Ok(Seq::new(names.len(), |i: int| None))
    } else {
        match fill_slots(callee, names, keys, (n - 1) as nat) {
            Err(e) => Err(e),
            Ok(slots) => {
                let k = n - 1;
                let kspan = keys[k].1;
                match keys[k].0 {
                    None => Err(mismatch("chave literal de Text"@, "expressão como chave"@, kspan)),
                    Some(key) => match param_index(names, key) {
                        None => Err(
                            mismatch(
                                "parâmetro de `"@ + callee + "`"@,
                                "`"@ + key + "` não é parâmetro de `"@ + callee + "`"@,
                                kspan,
                            ),
                        ),
                        Some(idx) => if slots[idx] is Some {
                            Err(
                                mismatch(
                                    "parâmetro `"@ + key + "` fornecido uma vez"@,
                                    "parâmetro `"@ + key + "` duplicado"@,
                                    kspan,
                                ),
                            )
                        } else {
                            Ok(slots.update(idx, Some(k)))
                        },
                    },
                }
            },
        }
    }
}

/// `i` is the first parameter that no entry gives.
pub open spec fn is_first_missing(slots: Seq<Option<int>>, i: int) -> bool {
    &&& 0 <= i < slots.len()
    &&& slots[i] is None
    &&& forall|j: int| 0 <= j < i ==> #[trigger] slots[j] is Some
}

/// For each parameter in order, the entry that gives it; or why the call
/// is refused.
pub open spec fn spec_reorder(
    callee: Seq<char>,
    overloads: Option<Seq<OverloadParams>>,
    keys: Seq<(Option<Seq<char>>, Span)>,
    span: Span,
) -> Result<Seq<int>, SpecDictArgsError> {
    match overloads {
        None => Err(SpecDictArgsError::UnboundName { name: "Action `"@ + callee + "` não declarada"@, span }),
        Some(ovs) => if !exists|i: int| is_first_named(ovs, i) {
            Err(
                mismatch(
                    "Action `"@ + callee + "` com params nomeados para chamada via Dict"@,
                    "`"@ + callee + "` não tem params nomeados — use chamada posicional "@ + callee + "!(...)"@,
                    span,
                ),
            )
        } else {
            let names = names_of(ovs[choose|i: int| is_first_named(ovs, i)].param_names@);
            match fill_slots(callee, names, keys, keys.len()) {
                Err(e) => Err(e),
                Ok(slots) => if exists|i: int| is_first_missing(slots, i) {
                    let i = choose|i: int| is_first_missing(slots, i);
                    let shown = match names[i] {
                        Some(n) => n,
                        None => "?"@,
                    };
                    Err(
                        mismatch(
                            "parâmetro `"@ + shown + "` de `"@ + callee + "`"@,
                            "parâmetro não fornecido"@,
                            span,
                        ),
                    )
                } else {
                    Ok(Seq::new(slots.len(), |i: int| slots[i]->0))
                },
            }
        },
    }
}

/// The keys of the entries: their text, if literal, and their spans.
pub open spec fn keys_of(entries: Seq<(Spanned<TypedExpr>, Spanned<TypedExpr>)>) -> Seq<(Option<Seq<char>>, Span)> {
    Seq::new(entries.len(), |i: int| (key_text(entries[i].0), entries[i].0.span))
}

pub open spec fn error_matches(e: DictArgsError, se: SpecDictArgsError) -> bool {
    match (e, se) {
        (DictArgsError::UnboundName { name, span }, SpecDictArgsError::UnboundName { name: sn, span: ss }) => name@
            == sn && span == ss,
        (DictArgsError::TypeMismatch(m), SpecDictArgsError::TypeMismatch { expected, found, span }) => m.expected@
            == expected && m.found@ == found && m.span == span,
        _ => false,
    }
}

pub open spec fn overloads_view(o: Option<&Vec<OverloadParams>>) -> Option<Seq<OverloadParams>> {
    match o {
        Some(v) => Some(v@),
        None => None,
    }
}

proof fn lemma_fill_err_stays(
    callee: Seq<char>,
    names: Seq<Option<Seq<char>>>,
    keys: Seq<(Option<Seq<char>>, Span)>,
    n: nat,
    m: nat,
)
    requires
        fill_slots(callee, names, keys, n) is Err,
        n <= m,
    ensures
        fill_slots(callee, names, keys, m) == fill_slots(callee, names, keys, n),
    decreases m - n,
{
    if n < m {
        lemma_fill_err_stays(callee, names, keys, n, (m - 1) as nat);
    }
}

spec fn slots_view(slots: Seq<Option<usize>>) -> Seq<Option<int>> {
    Seq::new(
        slots.len(),
        |i: int|
            match slots[i] {
                Some(x) => Some(x as int),
                None => None,
            },
    )
}

fn first_named(ovs: &Vec<OverloadParams>) -> (r: Option<usize>)
    ensures
        match r {
            Some(i) => is_first_named(ovs@, i as int),
            None => !exists|i: int| is_first_named(ovs@, i),
        },
{
    let mut i: usize = 0;
    while i < ovs.len()
        invariant
            i <= ovs@.len(),
            forall|j: int| 0 <= j < i ==> !(#[trigger] ovs@[j].is_action && ovs@[j].param_names@.len() > 0),
        decreases ovs@.len() - i,
    {
        if ovs[i].is_action && ovs[i].param_names.len() > 0 {
            return Some(i);
        }
        i += 1;
    }
    None
}

fn find_param(names: &Vec<Option<String>>, key: &String) -> (r: Option<usize>)
    ensures
        match r {
            Some(i) => param_index(names_of(names@), key@) == Some(i as int),
            None => param_index(names_of(names@), key@) is None,
        },
{
    let ghost ns = names_of(names@);
    let mut j: usize = names.len();
    while j > 0
        invariant
            j <= names@.len(),
            ns == names_of(names@),
            forall|q: int| j <= q < names@.len() ==> #[trigger] ns[q] != Some(key@),
        decreases j,
    {
        let hit = match &names[j - 1] {
            Some(n) => *n == *key,
            None => false,
        };
        if hit {
            proof {
                assert(is_last_match(ns, key@, j - 1));
                let c = choose|c: int| is_last_match(ns, key@, c);
                assert(c == j - 1) by {
                    if c < j - 1 {
                        assert(ns[j - 1] != Some(key@));
                    } else if c > j - 1 {
                        assert(ns[c] != Some(key@));
                    }
                }
            }
            return Some(j - 1);
        }
        assert(ns[j - 1] != Some(key@));
        j -= 1;
    }
    assert(!exists|i: int| is_last_match(ns, key@, i));
    None
}

fn mismatch_err(expected: String, found: String, span: Span) -> (r: DictArgsError)
    ensures
        error_matches(r, mismatch(expected@, found@, span)),
{
    DictArgsError::TypeMismatch(TypeMismatch { expected, found, span })
}

/// Puts the entries of a call with named arguments in the order of the
/// action's parameters and makes them a tuple. `overloads` is what the
/// dispatch table holds for `callee` (`None` if nothing). The parameter
/// names are those of the first overload that is an action with named
/// parameters; every key must be a text literal naming one parameter, no
/// parameter may be given twice, and every parameter must be given. The
/// tuple takes the span, tail position and escape target of the dictionary
/// it replaces (`span`, `tail_pos`, `escape`).
pub fn reorder_dict_args_to_tuple(
    callee: &str,
    overloads: Option<&Vec<OverloadParams>>,
    entries: Vec<(Spanned<TypedExpr>, Spanned<TypedExpr>)>,
    span: Span,
    tail_pos: bool,
    escape: EscapeTarget,
) -> (r: Result<TypedExpr, DictArgsError>)
    ensures
        match (r, spec_reorder(callee@, overloads_view(overloads), keys_of(entries@), span)) {
            (Ok(te), Ok(slots)) => {
                &&& te.kind matches TypedExprKind::Tuple { elements } && elements@ == Seq::new(
                    slots.len(),
                    |i: int| entries@[slots[i]].1,
                )
                &&& te.ty@ == SpecTy::Tuple(Seq::new(slots.len(), |i: int| entries@[slots[i]].1.node.ty@))
                &&& te.span == span
                &&& te.tail_pos == tail_pos
                &&& te.escape == escape
            },
            (Err(e), Err(se)) => error_matches(e, se),
            _ => false,
        },
{
    let ovs = match overloads {
        None => {
            let mut name = owned("Action `");
            push_str(&mut name, callee);
            push_str(&mut name, "` não declarada");
            return Err(DictArgsError::UnboundName { name, span });
        },
        Some(o) => o,
    };
    let oi = match first_named(ovs) {
        None => {
            let mut expected = owned("Action `");
            push_str(&mut expected, callee);
            push_str(&mut expected, "` com params nomeados para chamada via Dict");
            let mut found = owned("`");
            push_str(&mut found, callee);
            push_str(&mut found, "` não tem params nomeados — use chamada posicional ");
            push_str(&mut found, callee);
            push_str(&mut found, "!(...)");
            return Err(mismatch_err(expected, found, span));
        },
        Some(i) => i,
    };
    let names = &ovs[oi].param_names;
    let ghost ns = names_of(names@);
    let ghost keys = keys_of(entries@);
    proof {
        let c = choose|c: int| is_first_named(ovs@, c);
        assert(c == oi as int) by {
            if c < oi as int {
                assert(!(ovs@[c].is_action && ovs@[c].param_names@.len() > 0));
            } else if c > oi as int {
                assert(!(ovs@[oi as int].is_action && ovs@[oi as int].param_names@.len() > 0));
            }
        }
    }
    let n = names.len();
    let mut slots: Vec<Option<usize>> = Vec::new();
    let mut p: usize = 0;
    while p < n
        invariant
            p <= n,
            n == names@.len(),
            slots@.len() == p,
            forall|q: int| 0 <= q < p ==> #[trigger] slots@[q] is None,
        decreases n - p,
    {
        slots.push(None);
        p += 1;
    }
    assert(slots_view(slots@) =~= Seq::new(ns.len(), |i: int| None));
    let mut k: usize = 0;
    while k < entries.len()
        invariant
            overloads_view(overloads) == Some(ovs@),
            is_first_named(ovs@, oi as int),
            (choose|c: int| is_first_named(ovs@, c)) == oi as int,
            ovs@[oi as int].param_names@ == names@,
            k <= entries@.len(),
            n == names@.len(),
            ns == names_of(names@),
            keys == keys_of(entries@),
            slots@.len() == n,
            fill_slots(callee@, ns, keys, k as nat) == Ok::<Seq<Option<int>>, SpecDictArgsError>(
                slots_view(slots@),
            ),
            forall|q: int| 0 <= q < n && (#[trigger] slots@[q]) is Some ==> slots@[q]->0 < k,
            forall|a: int, b: int|
                0 <= a < n && 0 <= b < n && a != b && (#[trigger] slots@[a]) is Some && (#[trigger] slots@[b]) is Some
                    ==> slots@[a]->0 != slots@[b]->0,
        decreases entries@.len() - k,
    {
        let key_span = entries[k].0.span;
        assert(keys[k as int] == (key_text(entries@[k as int].0), key_span));
        let key = match &entries[k].0.node.kind {
            TypedExprKind::TextLit(t) => t,
            _ => {
                let e = mismatch_err(owned("chave literal de Text"), owned("expressão como chave"), key_span);
                proof {
                    assert(keys[k as int].0 is None);
                    lemma_fill_err_stays(callee@, ns, keys, (k + 1) as nat, keys.len());
                }
                return Err(e);
            },
        };
        let idx = match find_param(names, key) {
            None => {
                let mut expected = owned("parâmetro de `");
                push_str(&mut expected, callee);
                push_str(&mut expected, "`");
                let mut found = owned("`");
                push_str(&mut found, key.as_str());
                push_str(&mut found, "` não é parâmetro de `");
                push_str(&mut found, callee);
                push_str(&mut found, "`");
                proof {
                    assert(keys[k as int].0 == Some(key@));
                    lemma_fill_err_stays(callee@, ns, keys, (k + 1) as nat, keys.len());
                }
                return Err(mismatch_err(expected, found, key_span));
            },
            Some(i) => i,
        };
        proof {
            let c = choose|c: int| is_last_match(ns, key@, c);
            assert(is_last_match(ns, key@, c));
        }
        if slots[idx].is_some() {
            let mut expected = owned("parâmetro `");
            push_str(&mut expected, key.as_str());
            push_str(&mut expected, "` fornecido uma vez");
            let mut found = owned("parâmetro `");
            push_str(&mut found, key.as_str());
            push_str(&mut found, "` duplicado");
            assert(slots_view(slots@)[idx as int] is Some);
            proof {
                assert(keys[k as int].0 == Some(key@));
                lemma_fill_err_stays(callee@, ns, keys, (k + 1) as nat, keys.len());
            }
            return Err(mismatch_err(expected, found, key_span));
        }
        let ghost before = slots@;
        assert(keys[k as int].0 == Some(key@));
        slots.set(idx, Some(k));
        proof {
            assert(slots_view(before)[idx as int] is None);
            assert(slots_view(slots@) =~= slots_view(before).update(idx as int, Some(k as int)));
        }
        k += 1;
    }
    let mut i: usize = 0;
    while i < n
        invariant
            overloads_view(overloads) == Some(ovs@),
            is_first_named(ovs@, oi as int),
            (choose|c: int| is_first_named(ovs@, c)) == oi as int,
            ovs@[oi as int].param_names@ == names@,
            i <= n,
            n == names@.len(),
            ns == names_of(names@),
            keys == keys_of(entries@),
            slots@.len() == n,
            fill_slots(callee@, ns, keys, keys.len()) == Ok::<Seq<Option<int>>, SpecDictArgsError>(
                slots_view(slots@),
            ),
            forall|q: int| 0 <= q < i ==> (#[trigger] slots@[q]) is Some,
        decreases n - i,
    {
        if slots[i].is_none() {
            let shown = match &names[i] {
                Some(nm) => crate::ty::string_clone(nm),
                None => owned("?"),
            };
            let mut expected = owned("parâmetro `");
            push_str(&mut expected, shown.as_str());
            push_str(&mut expected, "` de `");
            push_str(&mut expected, callee);
            push_str(&mut expected, "`");
            proof {
                let sv = slots_view(slots@);
                assert(is_first_missing(sv, i as int));
                let c = choose|c: int| is_first_missing(sv, c);
                assert(c == i as int) by {
                    if c < i as int {
                        assert(slots@[c] is Some);
                    } else if c > i as int {
                        assert(sv[i as int] is None);
                    }
                }
            }
            return Err(mismatch_err(expected, owned("parâmetro não fornecido"), span));
        }
        i += 1;
    }
    let ghost sv = slots_view(slots@);
    let ghost sl = Seq::new(sv.len(), |q: int| sv[q]->0);
    proof {
        assert(!exists|c: int| is_first_missing(sv, c));
    }
    let ghost orig = entries@;
    let m = entries.len();
    let mut ents = entries;
    let mut pool: Vec<Option<Spanned<TypedExpr>>> = Vec::new();
    while ents.len() > 0
        invariant
            m == orig.len(),
            ents@ == orig.take(m - pool@.len()),
            pool@.len() <= m,
            forall|j: int| 0 <= j < pool@.len() ==> #[trigger] pool@[j] == Some(orig[m - 1 - j].1),
        decreases ents@.len(),
    {
        let ghost b = ents@;
        match ents.pop() {
            Some(e) => {
                pool.push(Some(e.1));
                assert(ents@ =~= orig.take(m - pool@.len()));
            },
            None => {},
        }
    }
    let mut elements: Vec<Spanned<TypedExpr>> = Vec::new();
    let mut tys: Vec<Ty> = Vec::new();
    let mut i: usize = 0;
    while i < n
        invariant
            i <= n,
            n == slots@.len(),
            m == orig.len(),
            pool@.len() == m,
            sv == slots_view(slots@),
            sl == Seq::new(sv.len(), |q: int| sv[q]->0),
            forall|q: int| 0 <= q < n ==> (#[trigger] slots@[q]) is Some && slots@[q]->0 < m,
            forall|a: int, b: int|
                0 <= a < n && 0 <= b < n && a != b && (#[trigger] slots@[a]) is Some && (#[trigger] slots@[b]) is Some
                    ==> slots@[a]->0 != slots@[b]->0,
            forall|q: int| i <= q < n ==> #[trigger] pool@[m - 1 - sl[q]] == Some(orig[sl[q]].1),
            elements@ == Seq::new(i as nat, |q: int| orig[sl[q]].1),
            tys_view(tys@) == Seq::new(i as nat, |q: int| orig[sl[q]].1.node.ty@),
        decreases n - i,
    {
        let s = match slots[i] {
            Some(x) => x,
            None => 0,
        };
        assert(s == sl[i as int]);
        let idx = m - 1 - s;
        let mut tmp: Option<Spanned<TypedExpr>> = None;
        let ghost pb = pool@;
        pool.set_and_swap(idx, &mut tmp);
        proof {
            assert(tmp == Some(orig[sl[i as int]].1));
            assert forall|q: int| i + 1 <= q < n implies #[trigger] pool@[m - 1 - sl[q]] == Some(orig[sl[q]].1) by {
                assert(slots@[q]->0 != slots@[i as int]->0);
                assert(pb[m - 1 - sl[q]] == Some(orig[sl[q]].1));
            }
        }
        let v = tmp.unwrap();
        let ghost tb = tys@;
        let tc = ty_clone(&v.node.ty);
        tys.push(tc);
        elements.push(v);
        proof {
            assert(elements@ =~= Seq::new((i + 1) as nat, |q: int| orig[sl[q]].1));
            assert(tb.len() == i) by {
                assert(tys_view(tb).len() == tb.len());
            }
            assert forall|q: int| 0 <= q < i + 1 implies #[trigger] tys_view(tys@)[q] == Seq::new(
                (i + 1) as nat,
                |q: int| orig[sl[q]].1.node.ty@,
            )[q] by {
                if q < i {
                    assert(tys@[q] == tb[q]);
                    assert(tys_view(tb)[q] == Seq::new(i as nat, |q: int| orig[sl[q]].1.node.ty@)[q]);
                } else {
                    assert(tys@[q] == tc);
                }
            }
            assert(tys_view(tys@) =~= Seq::new((i + 1) as nat, |q: int| orig[sl[q]].1.node.ty@));
        }
        i += 1;
    }
    let ty = Ty::Tuple(tys);
    let kind = TypedExprKind::Tuple { elements };
    Ok(TypedExpr { kind, ty, span, tail_pos, escape })
}

} // verus!
