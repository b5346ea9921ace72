//! Compile-time reading of literal expressions: filling the hole of a
//! refinement predicate, and reading integer literals.

use vstd::prelude::*;

use crate::ast::{
    clone_expr, clone_type_expr, sexpr_view, sexprs_view, spec_synthetic, Expr, SExpr, Span,
    Spanned, SpecExpr, SpecSpanned,
};
use crate::text::{chars_of, is_named, owned, push_str};

verus! {

/// `e` with every hole replaced by `v`, looking through applications,
/// ascriptions, parentheses and tuples.
pub open spec fn spec_substitute_hole(e: SExpr, v: SpecExpr) -> SExpr
    decreases e,
{
    let node = match e.node {
        SpecExpr::Hole => v,
        SpecExpr::Apply { callee, args } => SpecExpr::Apply {
            callee: Box::new(spec_substitute_hole(*callee, v)),
            args: spec_substitute_hole_seq(args, v),
        },
        SpecExpr::TypeAscription { expr, ty } => SpecExpr::TypeAscription {
            expr: Box::new(spec_substitute_hole(*expr, v)),
            ty,
        },
        SpecExpr::Grouping { inner } => SpecExpr::Grouping {
            inner: Box::new(spec_substitute_hole(*inner, v)),
        },
        SpecExpr::Tuple { elements } => SpecExpr::Tuple {
            elements: spec_substitute_hole_seq(elements, v),
        },
        other => other,
    };
    SpecSpanned { node, span: e.span }
}

pub open spec fn spec_substitute_hole_seq(s: Seq<SExpr>, v: SpecExpr) -> Seq<SExpr>
    decreases s,
{
    Seq::new(s.len(), |i: int| if 0 <= i < s.len() { spec_substitute_hole(s[i], v) } else { s[i] })
}

/// Replaces every hole of `expr` by the expression of `value`.
pub fn substitute_hole(expr: &Spanned<Expr>, value: &Spanned<Expr>) -> (r: Spanned<Expr>)
    ensures
        r@ == spec_substitute_hole(expr@, value@.node),
    decreases expr, 1nat,
{
    let new_node = match &expr.node {
        Expr::Hole => {
            let c = clone_expr(value);
            c.node
        },
        Expr::Apply { callee, args } => Expr::Apply {
            callee: Box::new(substitute_hole(callee, value)),
            args: substitute_hole_vec(args, value),
        },
        Expr::TypeAscription { expr: inner, ty } => Expr::TypeAscription {
            expr: Box::new(substitute_hole(inner, value)),
            ty: clone_type_expr(ty),
        },
        Expr::Grouping { inner } => Expr::Grouping { inner: Box::new(substitute_hole(inner, value)) },
        Expr::Tuple { elements } => Expr::Tuple { elements: substitute_hole_vec(elements, value) },
        _ => {
            let c = clone_expr(expr);
            c.node
        },
    };
    Spanned::new(new_node, expr.span)
}

fn substitute_hole_vec(v: &Vec<Spanned<Expr>>, value: &Spanned<Expr>) -> (r: Vec<Spanned<Expr>>)
    ensures
        sexprs_view(r@) == spec_substitute_hole_seq(sexprs_view(v@), value@.node),
    decreases v@, 0nat,
{
    let mut out: Vec<Spanned<Expr>> = Vec::new();
    let mut i: usize = 0;
    while i < v.len()
        invariant
            i <= v@.len(),
            out@.len() == i,
            forall|j: int|
                0 <= j < i ==> sexpr_view(#[trigger] out@[j]) == spec_substitute_hole(
                    sexpr_view(v@[j]),
                    value@.node,
                ),
        decreases v@.len() - i,
    {
        proof {
            assert(decreases_to!(v@ => v@[i as int]));
        }
        let d = substitute_hole(&v[i], value);
        out.push(d);
        i += 1;
    }
    assert(sexprs_view(out@) =~= spec_substitute_hole_seq(sexprs_view(v@), value@.node));
    out
}

// ── integer literals ────────────────────────────────────────────────

pub open spec fn is_digit(c: char) -> bool {
    '0' <= c <= '9'
}

pub open spec fn digit_value(c: char) -> int {
    (c as int) - ('0' as int)
}

/// The value of a string of decimal digits.
pub open spec fn digits_value(d: Seq<char>) -> int
    decreases d.len(),
{
    if d.len() == 0 {
        0
    } else {
        10 * digits_value(d.drop_last()) + digit_value(d.last())
    }
}

/// `s` without its leading sign, if it has one.
pub open spec fn unsigned_part(s: Seq<char>) -> Seq<char> {
    if s.len() > 0 && (s[0] == '-' || s[0] == '+') {
        s.skip(1)
    } else {
        s
    }
}

/// `d` is a non-empty string of decimal digits.
pub open spec fn all_digits(d: Seq<char>) -> bool {
    d.len() > 0 && forall|i: int| 0 <= i < d.len() ==> is_digit(#[trigger] d[i])
}

/// The value that `s` spells: its digits, negated after a leading `-`.
pub open spec fn signed_value(s: Seq<char>) -> int {
    if s.len() > 0 && s[0] == '-' {
        -digits_value(unsigned_part(s))
    } else {
        digits_value(unsigned_part(s))
    }
}

/// What `str::parse::<i64>` accepts: an optional sign and at least one
/// decimal digit, with a value in the range of `i64`.
pub open spec fn spec_parse_i64(s: Seq<char>) -> Option<i64> {
    if all_digits(unsigned_part(s)) && i64::MIN <= signed_value(s) <= i64::MAX {
        Some(signed_value(s) as i64)
    } else {
        None
    }
}

proof fn lemma_digits_nonneg(d: Seq<char>)
    requires
        forall|i: int| 0 <= i < d.len() ==> is_digit(#[trigger] d[i]),
    ensures
        digits_value(d) >= 0,
    decreases d.len(),
{
    if d.len() > 0 {
        lemma_digits_nonneg(d.drop_last());
        assert(is_digit(d[d.len() - 1]));
    }
}

proof fn lemma_digits_prefix(d: Seq<char>, k: int)
    requires
        0 <= k <= d.len(),
        forall|i: int| 0 <= i < d.len() ==> is_digit(#[trigger] d[i]),
    ensures
        digits_value(d.take(k)) <= digits_value(d),
    decreases d.len(),
{
    if k < d.len() {
        assert(d.take(k) =~= d.drop_last().take(k));
        lemma_digits_prefix(d.drop_last(), k);
        lemma_digits_nonneg(d.drop_last());
        assert(is_digit(d[d.len() - 1]));
    } else {
        assert(d.take(k) =~= d);
    }
}

/// Parses a decimal `i64` the way `str::parse::<i64>` does.
pub fn parse_i64(text: &str) -> (r: Option<i64>)
    ensures
        r == spec_parse_i64(text@),
{
    let cs = chars_of(text);
    let n = cs.len();
    let neg = n > 0 && cs[0] == '-';
    let start: usize = if n > 0 && (cs[0] == '-' || cs[0] == '+') {
        1
    } else {
        0
    };
    let ghost d = cs@.skip(start as int);
    if start == n {
        return None;
    }
    proof {
        if start == 0 {
            assert(d =~= cs@);
        }
        assert(d.take(0) =~= Seq::<char>::empty());
    }
    let mut acc: u128 = 0;
    let mut k: usize = start;
    while k < n
        invariant
            start <= k <= n,
            n == cs@.len(),
            cs@ == text@,
            neg == (n > 0 && cs@[0] == '-'),
            start == (if n > 0 && (cs@[0] == '-' || cs@[0] == '+') {
                1usize
            } else {
                0usize
            }),
            start < n,
            d == cs@.skip(start as int),
            start == 0 ==> d == cs@,
            acc <= 0x8000_0000_0000_0000,
            acc == digits_value(d.take(k - start)),
            forall|i: int| 0 <= i < k - start ==> is_digit(#[trigger] d[i]),
        decreases n - k,
    {
        let c = cs[k];
        if !('0' <= c && c <= '9') {
            proof {
                assert(unsigned_part(text@) == d);
                assert(!is_digit(d[k - start]));
            }
            return None;
        }
        let dv = (c as u32 - '0' as u32) as u128;
        proof {
            let t = d.take(k - start + 1);
            assert(t.drop_last() =~= d.take(k - start));
            assert(t.last() == c);
        }
        acc = acc * 10 + dv;
        if acc > 0x8000_0000_0000_0000 {
            proof {
                if forall|i: int| 0 <= i < d.len() ==> is_digit(#[trigger] d[i]) {
                    lemma_digits_prefix(d, k - start + 1);
                    lemma_digits_nonneg(d);
                }
                assert(unsigned_part(text@) == d);
            }
            return None;
        }
        k += 1;
    }
    assert(d.take(n - start) =~= d);
    assert(digits_value(d) == acc);
    assert(unsigned_part(text@) == d);
    if neg {
        if acc == 0x8000_0000_0000_0000 {
            Some(i64::MIN)
        } else {
            Some(-(acc as i64))
        }
    } else {
        if acc == 0x8000_0000_0000_0000 {
            None
        } else {
            Some(acc as i64)
        }
    }
}

/// An expression whose type is not the one the context needs.
#[derive(Debug)]
pub struct TypeMismatch {
    pub expected: String,
    pub found: String,
    pub span: Span,
}

/// The value of an integer literal used as an index.
pub open spec fn spec_eval_int_literal(e: SpecExpr) -> Result<i64, (Seq<char>, Seq<char>)> {
    match e {
        SpecExpr::IntLit { text } => match spec_parse_i64(text) {
            Some(v) => Ok(v),
            None => Err(("literal inteiro"@, "não-integer literal: "@ + text)),
        },
        _ => Err(("literal inteiro em índice de range de tensor"@, "expressão não-literal"@)),
    }
}

/// Reads an integer literal at compile time; anything else is refused.
pub fn eval_int_literal(expr: &Expr) -> (r: Result<i64, TypeMismatch>)
    ensures
        match (r, spec_eval_int_literal(expr@)) {
            (Ok(v), Ok(sv)) => v == sv,
            (Err(m), Err((exp, found))) => m.expected@ == exp && m.found@ == found && m.span
                == spec_synthetic(),
            _ => false,
        },
{
    match expr {
        Expr::IntLit { text } => match parse_i64(text.as_str()) {
            Some(v) => Ok(v),
            None => {
                let mut found = owned("não-integer literal: ");
                push_str(&mut found, text.as_str());
                Err(TypeMismatch { expected: owned("literal inteiro"), found, span: Span::synthetic() })
            },
        },
        _ => Err(
            TypeMismatch {
                expected: owned("literal inteiro em índice de range de tensor"),
                found: owned("expressão não-literal"),
                span: Span::synthetic(),
            },
        ),
    }
}


// ── ordering constants ──────────────────────────────────────────────

/// How two constants of one kind compare.
#[derive(Clone, Copy, Debug, PartialEq, Eq, Structural)]
pub enum ConstOrder {
    Less,
    Equal,
    Greater,
}

/// The order of two integers.
pub open spec fn spec_int_order(a: int, b: int) -> ConstOrder {
    if a < b {
        ConstOrder::Less
    } else if a == b {
        ConstOrder::Equal
    } else {
        ConstOrder::Greater
    }
}

/// Compares two integer constants.
pub fn compare_ints(a: i64, b: i64) -> (r: ConstOrder)
    ensures
        r == spec_int_order(a as int, b as int),
{
    if a < b {
        ConstOrder::Less
    } else if a == b {
        ConstOrder::Equal
    } else {
        ConstOrder::Greater
    }
}

/// The order of the rationals `n1/d1` and `n2/d2` by cross multiplication:
/// `n1·d2` against `n2·d1`, read the other way round when `d1·d2` is
/// negative.
pub open spec fn spec_rational_order(n1: int, d1: int, n2: int, d2: int) -> ConstOrder {
    if d1 * d2 >= 0 {
        spec_int_order(n1 * d2, n2 * d1)
    } else {
        spec_int_order(n2 * d1, n1 * d2)
    }
}

proof fn lemma_i64_product(a: i64, b: i64)
    ensures
        -0x4000_0000_0000_0000_0000_0000_0000_0000 <= (a as int) * (b as int) <= 0x4000_0000_0000_0000_0000_0000_0000_0000,
{
    assert(-0x4000_0000_0000_0000_0000_0000_0000_0000 <= (a as int) * (b as int) <= 0x4000_0000_0000_0000_0000_0000_0000_0000)
        by (nonlinear_arith)
        requires
            -0x8000_0000_0000_0000 <= a <= 0x7fff_ffff_ffff_ffff,
            -0x8000_0000_0000_0000 <= b <= 0x7fff_ffff_ffff_ffff,
    ;
}

/// Compares two rational constants (numerator, denominator).
pub fn compare_rationals(n1: i64, d1: i64, n2: i64, d2: i64) -> (r: ConstOrder)
    ensures
        r == spec_rational_order(n1 as int, d1 as int, n2 as int, d2 as int),
{
    proof {
        lemma_i64_product(n1, d2);
        lemma_i64_product(n2, d1);
        lemma_i64_product(d1, d2);
    }
    let l: i128 = (n1 as i128) * (d2 as i128);
    let r: i128 = (n2 as i128) * (d1 as i128);
    let sign: i128 = (d1 as i128) * (d2 as i128);
    if sign >= 0 {
        if l < r {
            ConstOrder::Less
        } else if l == r {
            ConstOrder::Equal
        } else {
            ConstOrder::Greater
        }
    } else {
        if r < l {
            ConstOrder::Less
        } else if r == l {
            ConstOrder::Equal
        } else {
            ConstOrder::Greater
        }
    }
}

/// The lexicographic order of two texts, character by character; a
/// proper prefix comes first.
pub open spec fn spec_text_order(a: Seq<char>, b: Seq<char>) -> ConstOrder
    decreases a.len(),
{
    if a.len() == 0 {
        if b.len() == 0 {
            ConstOrder::Equal
        } else {
            ConstOrder::Less
        }
    } else if b.len() == 0 {
        ConstOrder::Greater
    } else if a[0] != b[0] {
        if a[0] < b[0] {
            ConstOrder::Less
        } else {
            ConstOrder::Greater
        }
    } else {
        spec_text_order(a.drop_first(), b.drop_first())
    }
}

/// Compares two text constants.
pub fn compare_texts(a: &String, b: &String) -> (r: ConstOrder)
    ensures
        r == spec_text_order(a@, b@),
{
    let x = chars_of(a.as_str());
    let y = chars_of(b.as_str());
    let mut i: usize = 0;
    assert(a@.skip(0) =~= a@ && b@.skip(0) =~= b@);
    while i < x.len() && i < y.len() && x[i] == y[i]
        invariant
            x@ == a@,
            y@ == b@,
            i <= x@.len(),
            i <= y@.len(),
            spec_text_order(a@, b@) == spec_text_order(a@.skip(i as int), b@.skip(i as int)),
        decreases x@.len() - i,
    {
        proof {
            let s = a@.skip(i as int);
            let t = b@.skip(i as int);
            assert(s.drop_first() =~= a@.skip(i + 1));
            assert(t.drop_first() =~= b@.skip(i + 1));
            assert(s[0] == x@[i as int] && t[0] == y@[i as int]);
        }
        i += 1;
    }
    let ghost s = a@.skip(i as int);
    let ghost t = b@.skip(i as int);
    if i == x.len() {
        if i == y.len() {
            assert(s.len() == 0 && t.len() == 0);
            ConstOrder::Equal
        } else {
            assert(s.len() == 0 && t.len() > 0);
            ConstOrder::Less
        }
    } else if i == y.len() {
        assert(s.len() > 0 && t.len() == 0);
        ConstOrder::Greater
    } else {
        assert(s[0] == x@[i as int] && t[0] == y@[i as int]);
        if x[i] < y[i] {
            ConstOrder::Less
        } else {
            ConstOrder::Greater
        }
    }
}

/// What an ordering operator says of an order: `<`, `>`, `<=`, `>=`;
/// `None` for any other operator.
pub open spec fn spec_relation(op: Seq<char>, ord: ConstOrder) -> Option<bool> {
    if op == "<"@ {
        Some(ord == ConstOrder::Less)
    } else if op == ">"@ {
        Some(ord == ConstOrder::Greater)
    } else if op == "<="@ {
        Some(ord != ConstOrder::Greater)
    } else if op == ">="@ {
        Some(ord != ConstOrder::Less)
    } else {
        None
    }
}

/// Whether `ord` satisfies the ordering operator `op`.
pub fn relation_holds(op: &str, ord: ConstOrder) -> (r: Option<bool>)
    ensures
        r == spec_relation(op@, ord),
{
    let o = owned(op);
    if is_named(&o, "<") {
        Some(ord == ConstOrder::Less)
    } else if is_named(&o, ">") {
        Some(ord == ConstOrder::Greater)
    } else if is_named(&o, "<=") {
        Some(ord != ConstOrder::Greater)
    } else if is_named(&o, ">=") {
        Some(ord != ConstOrder::Less)
    } else {
        None
    }
}

proof fn lemma_operators_distinct()
    ensures
        ">"@ != "<"@,
        "<="@ != "<"@,
        "<="@ != ">"@,
        ">="@ != "<"@,
        ">="@ != ">"@,
        ">="@ != "<="@,
{
    reveal_strlit("<");
    reveal_strlit(">");
    reveal_strlit("<=");
    reveal_strlit(">=");
    assert(">"@[0] != "<"@[0]);
    assert("<="@.len() != "<"@.len());
    assert("<="@.len() != ">"@.len());
    assert(">="@.len() != "<"@.len());
    assert(">="@.len() != ">"@.len());
    assert(">="@[0] != "<="@[0]);
}

/// The ordering operators say of two integers what they say in arithmetic:
/// `a op b` holds exactly when the comparison of `a` with `b` satisfies
/// `op`; in particular `>=` and `<=` hold of equal integers.
pub proof fn law_relation_on_ints(a: int, b: int)
    ensures
        spec_relation("<"@, spec_int_order(a, b)) == Some(a < b),
        spec_relation(">"@, spec_int_order(a, b)) == Some(a > b),
        spec_relation("<="@, spec_int_order(a, b)) == Some(a <= b),
        spec_relation(">="@, spec_int_order(a, b)) == Some(a >= b),
{
    lemma_operators_distinct();
}

/// Each non-strict operator is the negation of the opposite strict one,
/// and the two strict operators never hold together, whatever the order.
pub proof fn law_relation_complements(ord: ConstOrder)
    ensures
        spec_relation(">="@, ord) is Some && spec_relation("<"@, ord) is Some,
        spec_relation(">="@, ord)->0 == !spec_relation("<"@, ord)->0,
        spec_relation("<="@, ord)->0 == !spec_relation(">"@, ord)->0,
        !(spec_relation("<"@, ord)->0 && spec_relation(">"@, ord)->0),
        spec_relation("<="@, ord)->0 && spec_relation(">="@, ord)->0 <==> ord == ConstOrder::Equal,
{
    lemma_operators_distinct();
}

/// The order of two rationals with non-zero denominators is the order of
/// their values: `n1/d1 - n2/d2` has the sign of
/// `(n1·d2 - n2·d1)·(d1·d2)`, so the order is that of `n1·d2·(d1·d2)`
/// against `n2·d1·(d1·d2)`. Equal fractions written differently compare
/// equal.
pub proof fn law_rational_order_by_value(n1: int, d1: int, n2: int, d2: int)
    requires
        d1 != 0,
        d2 != 0,
    ensures
        spec_rational_order(n1, d1, n2, d2) == spec_int_order(n1 * d2 * (d1 * d2), n2 * d1 * (d1 * d2)),
        spec_rational_order(n1, d1, n2, d2) == ConstOrder::Equal <==> n1 * d2 == n2 * d1,
{
    let q = d1 * d2;
    let a = n1 * d2;
    let b = n2 * d1;
    assert(q != 0) by (nonlinear_arith)
        requires
            d1 != 0,
            d2 != 0,
            q == d1 * d2,
    ;
    if q > 0 {
        assert(a < b <==> a * q < b * q) by (nonlinear_arith)
            requires
                q > 0,
        ;
        assert(a == b <==> a * q == b * q) by (nonlinear_arith)
            requires
                q > 0,
        ;
    } else {
        assert(b < a <==> a * q < b * q) by (nonlinear_arith)
            requires
                q < 0,
        ;
        assert(a == b <==> a * q == b * q) by (nonlinear_arith)
            requires
                q < 0,
        ;
    }
}

/// Comparing two orders of the same two rationals either way round gives
/// opposite answers.
pub proof fn law_rational_order_flips(n1: int, d1: int, n2: int, d2: int)
    requires
        d1 != 0,
        d2 != 0,
    ensures
        spec_rational_order(n1, d1, n2, d2) == ConstOrder::Less <==> spec_rational_order(n2, d2, n1, d1)
            == ConstOrder::Greater,
        spec_rational_order(n1, d1, n2, d2) == ConstOrder::Equal <==> spec_rational_order(n2, d2, n1, d1)
            == ConstOrder::Equal,
{
    assert(d1 * d2 == d2 * d1) by (nonlinear_arith);
}

/// Texts compare character by character: a text comes before the same
/// text continued, and after a common prefix the first differing
/// characters decide.
pub proof fn law_text_order(p: Seq<char>, rest: Seq<char>, c1: char, c2: char, s: Seq<char>, t: Seq<char>)
    ensures
        spec_text_order(p, p) == ConstOrder::Equal,
        rest.len() > 0 ==> spec_text_order(p, p + rest) == ConstOrder::Less,
        rest.len() > 0 ==> spec_text_order(p + rest, p) == ConstOrder::Greater,
        c1 < c2 ==> spec_text_order(p + seq![c1] + s, p + seq![c2] + t) == ConstOrder::Less,
        c1 < c2 ==> spec_text_order(p + seq![c2] + t, p + seq![c1] + s) == ConstOrder::Greater,
    decreases p.len(),
{
    if p.len() > 0 {
        law_text_order(p.drop_first(), rest, c1, c2, s, t);
        assert((p + rest).drop_first() =~= p.drop_first() + rest);
        assert((p + seq![c1] + s).drop_first() =~= p.drop_first() + seq![c1] + s);
        assert((p + seq![c2] + t).drop_first() =~= p.drop_first() + seq![c2] + t);
        assert((p + rest)[0] == p[0]);
        assert((p + seq![c1] + s)[0] == p[0]);
        assert((p + seq![c2] + t)[0] == p[0]);
    } else {
        assert(p + rest =~= rest);
        assert(p + seq![c1] + s =~= seq![c1] + s);
        assert(p + seq![c2] + t =~= seq![c2] + t);
    }
}

} // verus!
