//! Channel built-ins: fresh element-type variables for `channel!()`,
//! `queue!(N)` and `broadcast!()`, and the reverse substitution that
//! resolves those variables from concrete channel types.

use vstd::prelude::*;

use crate::ast::{sexpr_view, Expr, SExpr, Span, SpecExpr, Spanned};
use crate::const_eval::{all_digits, digit_value, digits_value, is_digit, parse_i64, spec_parse_i64, unsigned_part, TypeMismatch};
use crate::expr_utils::{describe_expr, spec_describe_expr};
use crate::subst::{Substitutions, lemma_submap_trans};
use crate::text::{owned, push_char, push_decimal, spec_decimal, spec_digit};
use crate::ty::{SpecTy, Ty, lemma_ty_view, string_clone, ty_clone, tys_view};

verus! {

/// The counter of channel element-type variables of one inference run.
pub struct ChannelTypeVarCounter {
    next: u32,
}

impl ChannelTypeVarCounter {
    /// A counter at zero.
    pub fn new() -> (r: ChannelTypeVarCounter)
        ensures
            r.value() == 0,
    {
        ChannelTypeVarCounter { next: 0 }
    }

    /// The number that the next variable will carry.
    pub closed spec fn value(&self) -> nat {
        self.next as nat
    }
}

/// The name of the `n`-th channel element variable: `T` followed by `n`.
pub open spec fn spec_channel_var_name(n: nat) -> Seq<char> {
    seq!['T'] + spec_decimal(n)
}

/// A fresh name for the element type of a channel: `T0`, `T1`, … in
/// order of creation.
pub fn next_channel_type_var(counter: &mut ChannelTypeVarCounter) -> (r: String)
    requires
        old(counter).value() < u32::MAX,
    ensures
        r@ == spec_channel_var_name(old(counter).value()),
        final(counter).value() == old(counter).value() + 1,
{
    let n = counter.next;
    counter.next = n + 1;
    let mut s = String::new();
    push_char(&mut s, 'T');
    push_decimal(&mut s, n as u64);
    s
}

/// Resets the counter at the start of a module.
pub fn reset_channel_type_var_counter(counter: &mut ChannelTypeVarCounter)
    ensures
        final(counter).value() == 0,
{
    counter.next = 0;
}

/// The kind of channel a built-in creates.
#[derive(Clone, Copy, Debug, PartialEq, Eq, Structural)]
pub enum ChannelKind {
    Rendezvous,
    Buffered(i64),
    Broadcast,
}

/// The type of the `(sender, receiver)` pair a channel built-in returns:
/// a broadcast hands out a receiver factory, the others a receiver.
pub open spec fn spec_channel_pair_ty(kind: ChannelKind, elem: SpecTy) -> SpecTy {
    match kind {
        ChannelKind::Broadcast => SpecTy::Tuple(
            seq![SpecTy::Sender(Box::new(elem)), SpecTy::ReceiverFactory(Box::new(elem))],
        ),
        _ => SpecTy::Tuple(seq![SpecTy::Sender(Box::new(elem)), SpecTy::Receiver(Box::new(elem))]),
    }
}

/// The type of the pair a channel built-in returns for element type `elem`.
pub fn channel_pair_ty(kind: ChannelKind, elem: &Ty) -> (r: Ty)
    ensures
        r@ == spec_channel_pair_ty(kind, elem@),
{
    let mut v: Vec<Ty> = Vec::new();
    v.push(Ty::Sender(Box::new(ty_clone(elem))));
    match kind {
        ChannelKind::Broadcast => v.push(Ty::ReceiverFactory(Box::new(ty_clone(elem)))),
        _ => v.push(Ty::Receiver(Box::new(ty_clone(elem)))),
    }
    let r = Ty::Tuple(v);
    proof {
        lemma_ty_view(r);
        lemma_ty_view(v@[0]);
        lemma_ty_view(v@[1]);
        assert(tys_view(v@) =~= spec_channel_pair_ty(kind, elem@)->Tuple_0);
    }
    r
}

/// A channel built-in: a fresh element variable `elem` and the pair type.
/// `cross_process` marks a channel handed to a spawned process; a channel
/// is created without the mark.
pub struct ChannelCreate {
    pub kind: ChannelKind,
    pub elem_ty: Ty,
    pub ty: Ty,
    pub cross_process: bool,
}

/// Why a channel built-in was rejected.
#[derive(Clone, Copy, Debug, PartialEq, Eq, Structural)]
pub enum ChannelError {
    /// `queue!` was given a capacity that is not positive.
    NonPositiveCapacity(i64),
}

/// Types a channel built-in: `channel!()`, `broadcast!()` (`kind`
/// `Rendezvous` or `Broadcast`) or `queue!(N)` (`kind` `Buffered(N)`).
/// A buffered channel needs a positive capacity.
pub fn channel_builtin(kind: ChannelKind, counter: &mut ChannelTypeVarCounter) -> (r: Result<
    ChannelCreate,
    ChannelError,
>)
    requires
        old(counter).value() < u32::MAX,
    ensures
        match kind {
            ChannelKind::Buffered(n) => n <= 0,
            _ => false,
        } ==> r == Err::<ChannelCreate, ChannelError>(ChannelError::NonPositiveCapacity(kind->0))
            && final(counter).value() == old(counter).value(),
        r matches Ok(c) ==> {
            &&& c.kind == kind
            &&& c.elem_ty@ == SpecTy::Var(spec_channel_var_name(old(counter).value()))
            &&& c.ty@ == spec_channel_pair_ty(kind, c.elem_ty@)
            &&& !c.cross_process
            &&& final(counter).value() == old(counter).value() + 1
        },
        r is Err ==> (kind matches ChannelKind::Buffered(n) && n <= 0),
{
    if let ChannelKind::Buffered(n) = kind {
        if n <= 0 {
            return Err(ChannelError::NonPositiveCapacity(n));
        }
    }
    let name = next_channel_type_var(counter);
    let elem_ty = Ty::Var(name);
    let ty = channel_pair_ty(kind, &elem_ty);
    Ok(ChannelCreate { kind, elem_ty, ty, cross_process: false })
}

/// `channel!()` and `broadcast!()` take no argument: what they were given
/// must be `()`.
pub fn infer_channel_builtin(
    kind: ChannelKind,
    args: &Spanned<Expr>,
    counter: &mut ChannelTypeVarCounter,
) -> (r: Result<ChannelCreate, TypeMismatch>)
    requires
        old(counter).value() < u32::MAX,
    ensures
        !(args.node is Unit) ==> (r matches Err(m) && m.expected@
            == "`()` — channel!()/broadcast!() não recebem argumentos"@ && m.found@ == spec_describe_expr(
            args@.node,
        ) && m.span == args.span && final(counter).value() == old(counter).value()),
        args.node is Unit ==> (r matches Ok(c) && c.kind == kind && c.elem_ty@ == SpecTy::Var(
            spec_channel_var_name(old(counter).value()),
        ) && c.ty@ == spec_channel_pair_ty(kind, c.elem_ty@) && !c.cross_process && final(counter).value() == old(counter).value()
            + 1),
{
    match &args.node {
        Expr::Unit => {},
        _ => {
            return Err(
                TypeMismatch {
                    expected: owned("`()` — channel!()/broadcast!() não recebem argumentos"),
                    found: describe_expr(&args.node),
                    span: args.span,
                },
            );
        },
    }
    let name = next_channel_type_var(counter);
    let elem_ty = Ty::Var(name);
    let ty = channel_pair_ty(kind, &elem_ty);
    Ok(ChannelCreate { kind, elem_ty, ty, cross_process: false })
}

/// The decimal text of an integer, with a minus sign when negative.
pub open spec fn spec_int_text(n: int) -> Seq<char> {
    if n < 0 {
        seq!['-'] + spec_decimal((-n) as nat)
    } else {
        spec_decimal(n as nat)
    }
}

/// An integer literal's text read as an `i64`, or `0` when it does not read.
pub open spec fn spec_read_capacity(text: Seq<char>) -> i64 {
    match spec_parse_i64(text) {
        Some(v) => v,
        None => 0i64,
    }
}

/// The capacity that `queue!` reads from its argument: an integer literal,
/// possibly in parentheses, whose text is read as an `i64` (`0` when it
/// does not read); anything else is refused, as expected and found text
/// with the span of the refused node.
pub open spec fn spec_queue_capacity(args: SExpr) -> Result<i64, (Seq<char>, Seq<char>, Span)> {
    match args.node {
        SpecExpr::Grouping { inner } => match inner.node {
            SpecExpr::IntLit { text } => Ok(spec_read_capacity(text)),
            other => Err(("Int literal (capacidade do queue)"@, spec_describe_expr(other), inner.span)),
        },
        SpecExpr::IntLit { text } => Ok(spec_read_capacity(text)),
        other => Err(("Int literal (capacidade do queue)"@, spec_describe_expr(other), args.span)),
    }
}

/// `queue!(N)`: a buffered channel of capacity `N`, which must be a
/// positive integer literal.
pub fn infer_queue_builtin(args: &Spanned<Expr>, counter: &mut ChannelTypeVarCounter) -> (r: Result<
    ChannelCreate,
    TypeMismatch,
>)
    requires
        old(counter).value() < u32::MAX,
    ensures
        match spec_queue_capacity(args@) {
            Err((exp, found, sp)) => (r matches Err(m) && m.expected@ == exp && m.found@ == found && m.span == sp
                && final(counter).value() == old(counter).value()),
            Ok(n) => if n <= 0 {
                (r matches Err(m) && m.expected@ == "Int positivo (capacidade do queue > 0)"@ && m.found@
                    == spec_int_text(n as int) && m.span == args.span && final(counter).value()
                    == old(counter).value())
            } else {
                (r matches Ok(c) && c.kind == ChannelKind::Buffered(n) && c.elem_ty@ == SpecTy::Var(
                    spec_channel_var_name(old(counter).value()),
                ) && c.ty@ == spec_channel_pair_ty(c.kind, c.elem_ty@) && !c.cross_process && final(counter).value()
                    == old(counter).value() + 1)
            },
        },
{
    let ghost sc = spec_queue_capacity(args@);
    let capacity: i64 = match &args.node {
        Expr::Grouping { inner } => match &inner.node {
            Expr::IntLit { text } => {
                assert(args@.node == SpecExpr::Grouping { inner: Box::new(sexpr_view(**inner)) });
                assert(sexpr_view(**inner).node == SpecExpr::IntLit { text: text@ });
                match parse_i64(text.as_str()) {
                    Some(v) => v,
                    None => 0,
                }
            },
            other => {
                assert(args@.node == SpecExpr::Grouping { inner: Box::new(sexpr_view(**inner)) });
                assert(sexpr_view(**inner).node == other@);
                return Err(
                    TypeMismatch {
                        expected: owned("Int literal (capacidade do queue)"),
                        found: describe_expr(other),
                        span: inner.span,
                    },
                );
            },
        },
        Expr::IntLit { text } => match parse_i64(text.as_str()) {
            Some(v) => v,
            None => 0,
        },
        other => {
            return Err(
                TypeMismatch {
                    expected: owned("Int literal (capacidade do queue)"),
                    found: describe_expr(other),
                    span: args.span,
                },
            );
        },
    };
    assert(sc == Ok::<i64, (Seq<char>, Seq<char>, Span)>(capacity));
    if capacity <= 0 {
        let mut found = String::new();
        if capacity < 0 {
            push_char(&mut found, '-');
            let mag: i128 = 0i128 - (capacity as i128);
            push_decimal(&mut found, mag as u64);
        } else {
            push_decimal(&mut found, 0);
        }
        assert(found@ =~= spec_int_text(capacity as int));
        return Err(
            TypeMismatch {
                expected: owned("Int positivo (capacidade do queue > 0)"),
                found,
                span: args.span,
            },
        );
    }
    let kind = ChannelKind::Buffered(capacity);
    let name = next_channel_type_var(counter);
    let elem_ty = Ty::Var(name);
    let ty = channel_pair_ty(kind, &elem_ty);
    Ok(ChannelCreate { kind, elem_ty, ty, cross_process: false })
}

// ── reverse substitution ────────────────────────────────────────────

pub type SpecSubs = Map<Seq<char>, SpecTy>;

/// Resolves the variables of `arg` from the concrete `param`, in the
/// reverse direction of unification: where `arg` has a variable not yet
/// bound, it is bound to the part of `param` at that position; matching
/// channel, container, tuple and generic constructors are walked in
/// parallel; anything else binds nothing.
pub open spec fn spec_extract_var_subs(p: SpecTy, a: SpecTy, subs: SpecSubs) -> SpecSubs
    decreases p,
{
    match a {
        SpecTy::Var(n) => if subs.contains_key(n) {
            subs
        } else {
            subs.insert(n, p)
        },
        _ => match (p, a) {
            (SpecTy::Sender(x), SpecTy::Sender(y)) => spec_extract_var_subs(*x, *y, subs),
            (SpecTy::Receiver(x), SpecTy::Receiver(y)) => spec_extract_var_subs(*x, *y, subs),
            (SpecTy::ReceiverFactory(x), SpecTy::ReceiverFactory(y)) => spec_extract_var_subs(
                *x,
                *y,
                subs,
            ),
            (SpecTy::List(x), SpecTy::List(y)) => spec_extract_var_subs(*x, *y, subs),
            (SpecTy::Array(x), SpecTy::Array(y)) => spec_extract_var_subs(*x, *y, subs),
            (SpecTy::Range(x), SpecTy::Range(y)) => spec_extract_var_subs(*x, *y, subs),
            (SpecTy::Dict(pk, pv), SpecTy::Dict(ak, av)) => spec_extract_var_subs(
                *pv,
                *av,
                spec_extract_var_subs(*pk, *ak, subs),
            ),
            (SpecTy::SetOf(x), SpecTy::SetOf(y)) => spec_extract_var_subs(*x, *y, subs),
            (SpecTy::Tuple(ps), SpecTy::Tuple(qs)) => if ps.len() == qs.len() {
                spec_extract_seq(ps, qs, subs)
            } else {
                subs
            },
            (SpecTy::Generic(pn, ps), SpecTy::Generic(an, qs)) => if pn == an && ps.len()
                == qs.len() {
                spec_extract_seq(ps, qs, subs)
            } else {
                subs
            },
            _ => subs,
        },
    }
}

/// Reverse substitution over paired lists, left to right.
pub open spec fn spec_extract_seq(ps: Seq<SpecTy>, qs: Seq<SpecTy>, subs: SpecSubs) -> SpecSubs
    decreases ps,
{
    if ps.len() == 0 || qs.len() == 0 {
        subs
    } else {
        spec_extract_seq(
            ps.drop_first(),
            qs.drop_first(),
            spec_extract_var_subs(ps[0], qs[0], subs),
        )
    }
}

fn extract_seq(ps: &Vec<Ty>, qs: &Vec<Ty>, subs: &mut Substitutions)
    ensures
        final(subs)@ == spec_extract_seq(tys_view(ps@), tys_view(qs@), old(subs)@),
    decreases ps@, 0nat,
{
    let ghost a = tys_view(ps@);
    let ghost b = tys_view(qs@);
    let ghost whole = spec_extract_seq(a, b, old(subs)@);
    assert(a.skip(0) =~= a);
    assert(b.skip(0) =~= b);
    let mut i: usize = 0;
    while i < ps.len() && i < qs.len()
        invariant
            i <= ps@.len(),
            i <= qs@.len(),
            a == tys_view(ps@),
            b == tys_view(qs@),
            whole == spec_extract_seq(a.skip(i as int), b.skip(i as int), subs@),
        decreases ps@.len() - i,
    {
        proof {
            assert(decreases_to!(ps@ => ps@[i as int]));
            assert(a.skip(i as int)[0] == ps@[i as int]@);
            assert(b.skip(i as int)[0] == qs@[i as int]@);
            assert(a.skip(i as int).drop_first() =~= a.skip(i + 1));
            assert(b.skip(i as int).drop_first() =~= b.skip(i + 1));
        }
        extract_var_subs(&ps[i], &qs[i], subs);
        i += 1;
    }
}

/// Binds the variables of `arg` to the matching parts of the concrete
/// `param` (see [`spec_extract_var_subs`]); existing bindings are kept.
pub fn extract_var_subs(param: &Ty, arg: &Ty, subs: &mut Substitutions)
    ensures
        final(subs)@ == spec_extract_var_subs(param@, arg@, old(subs)@),
    decreases param, 1nat,
{
    proof {
        lemma_ty_view(*param);
        lemma_ty_view(*arg);
    }
    if let Ty::Var(name) = arg {
        if subs.get(name).is_none() {
            subs.insert(string_clone(name), ty_clone(param));
        }
        return;
    }
    match (param, arg) {
        (Ty::Sender(p), Ty::Sender(a)) => extract_var_subs(p, a, subs),
        (Ty::Receiver(p), Ty::Receiver(a)) => extract_var_subs(p, a, subs),
        (Ty::ReceiverFactory(p), Ty::ReceiverFactory(a)) => extract_var_subs(p, a, subs),
        (Ty::List(p), Ty::List(a)) => extract_var_subs(p, a, subs),
        (Ty::Array(p), Ty::Array(a)) => extract_var_subs(p, a, subs),
        (Ty::Range(p), Ty::Range(a)) => extract_var_subs(p, a, subs),
        (Ty::Dict(pk, pv), Ty::Dict(ak, av)) => {
            extract_var_subs(pk, ak, subs);
            extract_var_subs(pv, av, subs);
        },
        (Ty::SetOf(p), Ty::SetOf(a)) => extract_var_subs(p, a, subs),
        (Ty::Tuple(ps), Ty::Tuple(qs)) => {
            if ps.len() == qs.len() {
                extract_seq(ps, qs, subs);
            }
        },
        (Ty::Generic(pn, ps), Ty::Generic(an, qs)) => {
            if *pn == *an && ps.len() == qs.len() {
                extract_seq(ps, qs, subs);
            }
        },
        _ => {},
    }
}

/// Reverse substitution never removes or changes an existing binding.
pub proof fn law_extract_keeps_bindings(p: SpecTy, a: SpecTy, subs: SpecSubs)
    ensures
        subs.submap_of(spec_extract_var_subs(p, a, subs)),
    decreases p,
{
    if !(a is Var) {
        match (p, a) {
            (SpecTy::Sender(x), SpecTy::Sender(y)) => law_extract_keeps_bindings(*x, *y, subs),
            (SpecTy::Receiver(x), SpecTy::Receiver(y)) => law_extract_keeps_bindings(*x, *y, subs),
            (SpecTy::ReceiverFactory(x), SpecTy::ReceiverFactory(y)) => law_extract_keeps_bindings(
                *x,
                *y,
                subs,
            ),
            (SpecTy::List(x), SpecTy::List(y)) => law_extract_keeps_bindings(*x, *y, subs),
            (SpecTy::Array(x), SpecTy::Array(y)) => law_extract_keeps_bindings(*x, *y, subs),
            (SpecTy::Range(x), SpecTy::Range(y)) => law_extract_keeps_bindings(*x, *y, subs),
            (SpecTy::Dict(pk, pv), SpecTy::Dict(ak, av)) => {
                law_extract_keeps_bindings(*pk, *ak, subs);
                let m = spec_extract_var_subs(*pk, *ak, subs);
                law_extract_keeps_bindings(*pv, *av, m);
                lemma_submap_trans(subs, m, spec_extract_var_subs(*pv, *av, m));
            },
            (SpecTy::SetOf(x), SpecTy::SetOf(y)) => law_extract_keeps_bindings(*x, *y, subs),
            (SpecTy::Tuple(ps), SpecTy::Tuple(qs)) => {
                if ps.len() == qs.len() {
                    lemma_extract_seq_keeps(ps, qs, subs);
                }
            },
            (SpecTy::Generic(pn, ps), SpecTy::Generic(an, qs)) => {
                if pn == an && ps.len() == qs.len() {
                    lemma_extract_seq_keeps(ps, qs, subs);
                }
            },
            _ => {},
        }
    }
}

proof fn lemma_extract_seq_keeps(ps: Seq<SpecTy>, qs: Seq<SpecTy>, subs: SpecSubs)
    ensures
        subs.submap_of(spec_extract_seq(ps, qs, subs)),
    decreases ps,
{
    if ps.len() != 0 && qs.len() != 0 {
        law_extract_keeps_bindings(ps[0], qs[0], subs);
        let m = spec_extract_var_subs(ps[0], qs[0], subs);
        lemma_extract_seq_keeps(ps.drop_first(), qs.drop_first(), m);
        lemma_submap_trans(subs, m, spec_extract_seq(ps.drop_first(), qs.drop_first(), m));
    }
}


/// A variable argument is bound after reverse substitution: to the
/// concrete type if it was free, to its earlier binding otherwise.
pub proof fn law_extract_binds_variable(p: SpecTy, n: Seq<char>, subs: SpecSubs)
    ensures
        spec_extract_var_subs(p, SpecTy::Var(n), subs).contains_key(n),
        !subs.contains_key(n) ==> spec_extract_var_subs(p, SpecTy::Var(n), subs)[n] == p,
{
}

/// The channel element variables are fresh: the names given for two
/// different counter values differ.
pub proof fn law_channel_vars_fresh(n: nat, m: nat)
    requires
        n != m,
    ensures
        spec_channel_var_name(n) != spec_channel_var_name(m),
{
    if spec_channel_var_name(n) == spec_channel_var_name(m) {
        assert(spec_channel_var_name(n).drop_first() =~= spec_decimal(n));
        assert(spec_channel_var_name(m).drop_first() =~= spec_decimal(m));
        crate::text::lemma_decimal_injective(n, m);
    }
}

/// A channel's pair is a sender and a receiving end of one element type;
/// the receiving end is a receiver factory exactly for a broadcast, and a
/// plain receiver for a rendezvous or buffered channel.
pub proof fn law_channel_pair_ends(kind: ChannelKind, elem: SpecTy)
    ensures
        spec_channel_pair_ty(kind, elem) is Tuple,
        spec_channel_pair_ty(kind, elem)->Tuple_0.len() == 2,
        spec_channel_pair_ty(kind, elem)->Tuple_0[0] == SpecTy::Sender(Box::new(elem)),
        (spec_channel_pair_ty(kind, elem)->Tuple_0[1] == SpecTy::Receiver(Box::new(elem))) <==> !(kind is Broadcast),
        (spec_channel_pair_ty(kind, elem)->Tuple_0[1] == SpecTy::ReceiverFactory(Box::new(elem))) <==> kind is Broadcast,
{
}

proof fn lemma_decimal_digits(n: nat)
    ensures
        all_digits(spec_decimal(n)),
        digits_value(spec_decimal(n)) == n,
        spec_decimal(n)[0] != '-' && spec_decimal(n)[0] != '+',
    decreases n,
{
    let d = spec_decimal(n);
    if n < 10 {
        assert(d == seq![spec_digit(n)]);
        assert(d.drop_last() =~= Seq::<char>::empty());
        assert(is_digit(spec_digit(n)) && digit_value(spec_digit(n)) == n);
        assert(d.last() == spec_digit(n));
        assert(digits_value(d) == 10 * digits_value(d.drop_last()) + digit_value(d.last()));
    } else {
        lemma_decimal_digits(n / 10);
        let m = (n % 10) as nat;
        assert(d == spec_decimal(n / 10).push(spec_digit(m)));
        assert(d.drop_last() =~= spec_decimal(n / 10));
        assert(is_digit(spec_digit(m)) && digit_value(spec_digit(m)) == m);
        assert forall|i: int| 0 <= i < d.len() implies is_digit(#[trigger] d[i]) by {
            if i < d.len() - 1 {
                assert(d[i] == spec_decimal(n / 10)[i]);
            }
        }
        assert(d[0] == spec_decimal(n / 10)[0]);
        assert(d.last() == spec_digit(m));
        assert(digits_value(d) == 10 * digits_value(d.drop_last()) + digit_value(d.last()));
        assert(10 * (n / 10) + m == n);
    }
}

/// The decimal text of an `i64` reads back as that integer: what a
/// capacity error shows is what a literal of that value spells.
pub proof fn law_int_text_reads_back(n: i64)
    ensures
        spec_parse_i64(spec_int_text(n as int)) == Some(n),
{
    let t = spec_int_text(n as int);
    if n < 0 {
        let m = (-(n as int)) as nat;
        lemma_decimal_digits(m);
        assert(t[0] == '-');
        assert(unsigned_part(t) =~= spec_decimal(m));
    } else {
        lemma_decimal_digits(n as nat);
        assert(unsigned_part(t) == t);
    }
}

/// Channel element variables are fresh: two counter values name two
/// different variables, and each name is `T` followed by digits that
/// read back as the counter value.
pub proof fn law_channel_var_names_fresh(n: nat, m: nat)
    ensures
        n != m ==> spec_channel_var_name(n) != spec_channel_var_name(m),
        spec_channel_var_name(n)[0] == 'T',
        digits_value(spec_channel_var_name(n).skip(1)) == n,
{
    lemma_decimal_digits(n);
    lemma_decimal_digits(m);
    assert(spec_channel_var_name(n).skip(1) =~= spec_decimal(n));
    assert(spec_channel_var_name(m).skip(1) =~= spec_decimal(m));
    if spec_channel_var_name(n) == spec_channel_var_name(m) {
        assert(spec_decimal(n) == spec_decimal(m));
    }
}

} // verus!
