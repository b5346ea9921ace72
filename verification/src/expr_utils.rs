//! Small readings of surface expressions shared by the builtins: looking
//! through parentheses, the callee of an application, and the argument
//! list of a builtin call.

use vstd::prelude::*;

use crate::ast::{clone_expr, clone_exprs, sexpr_view, sexprs_view, Expr, SExpr, Spanned, SpecExpr};
use crate::const_eval::{spec_substitute_hole, TypeMismatch};
use crate::text::{chars_of, join_strings, names_view, owned, push_char, push_str, spec_join};
use crate::ty::string_clone;

verus! {

/// `e` without the parentheses around it.
pub open spec fn spec_peel_grouping_expr(e: SpecExpr) -> SpecExpr
    decreases e,
{
    match e {
        SpecExpr::Grouping { inner } => spec_peel_grouping_expr(inner.node),
        _ => e,
    }
}

/// Strips the parentheses around an expression.
pub fn peel_grouping_expr(e: &Expr) -> (r: &Expr)
    ensures
        r@ == spec_peel_grouping_expr(e@),
    decreases e,
{
    match e {
        Expr::Grouping { inner } => peel_grouping_expr(&inner.node),
        _ => e,
    }
}

/// The name called by a body of the form `name(...)`, parentheses aside.
pub open spec fn spec_extract_callee_name(body: SExpr) -> Option<Seq<char>> {
    match spec_peel_grouping_expr(body.node) {
        SpecExpr::Apply { callee, .. } => match spec_peel_grouping_expr(callee.node) {
            SpecExpr::Ident { name } => Some(name),
            _ => None,
        },
        _ => None,
    }
}

/// The name of the callee of a body that applies a name.
pub fn extract_callee_name(body: &Spanned<Expr>) -> (r: Option<String>)
    ensures
        match (r, spec_extract_callee_name(body@)) {
            (Some(n), Some(sn)) => n@ == sn,
            (None, None) => true,
            _ => false,
        },
{
    let body_core = peel_grouping_expr(&body.node);
    if let Expr::Apply { callee, .. } = body_core {
        let callee_core = peel_grouping_expr(&callee.node);
        if let Expr::Ident { name } = callee_core {
            return Some(string_clone(name));
        }
    }
    None
}

/// The elements of a tuple of builtin arguments, where `(t, ())` stands
/// for `t` alone and `(t, (a,))` for `t` and `a`.
pub open spec fn spec_extract_tuple_elems(elements: Seq<SExpr>) -> Seq<SExpr> {
    if elements.len() == 2 && elements[1].node is Unit {
        seq![elements[0]]
    } else if elements.len() == 2 && elements[1].node is Tuple && elements[1].node->Tuple_elements.len()
        == 1 {
        seq![elements[0], elements[1].node->Tuple_elements[0]]
    } else {
        elements
    }
}

/// Reads the elements of a tuple of builtin arguments.
pub fn extract_tuple_elems(elements: &Vec<Spanned<Expr>>) -> (r: Vec<Spanned<Expr>>)
    ensures
        sexprs_view(r@) == spec_extract_tuple_elems(sexprs_view(elements@)),
{
    let ghost es = sexprs_view(elements@);
    if elements.len() == 2 {
        assert(es[1] == sexpr_view(elements@[1]));
        if matches!(elements[1].node, Expr::Unit) {
            let mut out: Vec<Spanned<Expr>> = Vec::new();
            out.push(clone_expr(&elements[0]));
            assert(sexprs_view(out@) =~= seq![es[0]]);
            return out;
        }
        if let Expr::Tuple { elements: inner } = &elements[1].node {
            assert(es[1].node->Tuple_elements == sexprs_view(inner@));
            if inner.len() == 1 {
                let mut out: Vec<Spanned<Expr>> = Vec::new();
                out.push(clone_expr(&elements[0]));
                out.push(clone_expr(&inner[0]));
                assert(sexprs_view(out@) =~= seq![es[0], sexprs_view(inner@)[0]]);
                return out;
            }
        }
    }
    clone_exprs(elements)
}

/// The positional arguments of a `format!` call: a tuple is read as above,
/// `()` is no argument, and any other expression is the one argument.
pub open spec fn spec_extract_positional_elements(args: SExpr) -> Seq<SExpr> {
    match args.node {
        SpecExpr::Tuple { elements } => spec_extract_tuple_elems(elements),
        SpecExpr::Unit => Seq::empty(),
        SpecExpr::Grouping { inner } => match inner.node {
            SpecExpr::Tuple { elements } => spec_extract_tuple_elems(elements),
            _ => seq![*inner],
        },
        _ => seq![args],
    }
}

/// Reads the positional arguments of a `format!` call.
pub fn extract_positional_elements(args: &Spanned<Expr>) -> (r: Vec<Spanned<Expr>>)
    ensures
        sexprs_view(r@) == spec_extract_positional_elements(args@),
{
    match &args.node {
        Expr::Tuple { elements } => extract_tuple_elems(elements),
        Expr::Unit => {
            let out: Vec<Spanned<Expr>> = Vec::new();
            assert(sexprs_view(out@) =~= Seq::<SExpr>::empty());
            out
        },
        Expr::Grouping { inner } => match &inner.node {
            Expr::Tuple { elements } => {
                assert(args@.node == SpecExpr::Grouping { inner: Box::new(sexpr_view(**inner)) });
                assert(sexpr_view(**inner).node == SpecExpr::Tuple { elements: sexprs_view(elements@) });
                extract_tuple_elems(elements)
            },
            _ => {
                assert(args@.node == SpecExpr::Grouping { inner: Box::new(sexpr_view(**inner)) });
                assert(!(sexpr_view(**inner).node is Tuple));
                let mut out: Vec<Spanned<Expr>> = Vec::new();
                out.push(clone_expr(inner));
                assert(sexprs_view(out@) =~= seq![sexpr_view(**inner)]);
                out
            },
        },
        _ => {
            let mut out: Vec<Spanned<Expr>> = Vec::new();
            out.push(clone_expr(args));
            assert(sexprs_view(out@) =~= seq![args@]);
            out
        },
    }
}

/// A character of a quoted string: a quote and a backslash are escaped
/// with a backslash.
pub open spec fn spec_quoted_char(c: char) -> Seq<char> {
    if c == '"' || c == '\\' {
        seq!['\\', c]
    } else {
        seq![c]
    }
}

/// The characters of `s`, each quoted.
pub open spec fn spec_quoted_body(s: Seq<char>) -> Seq<char>
    decreases s.len(),
{
    if s.len() == 0 {
        Seq::empty()
    } else {
        spec_quoted_body(s.drop_last()) + spec_quoted_char(s.last())
    }
}

/// `s` between double quotes, its quotes and backslashes escaped.
pub open spec fn spec_quoted(s: Seq<char>) -> Seq<char> {
    seq!['"'] + spec_quoted_body(s) + seq!['"']
}

/// How an expression is shown in a diagnostic: the variant's name, with its
/// text fields quoted for literals, names and qualified variants, and
/// `{ .. }` or `(..)` for a node with sub-expressions.
pub open spec fn spec_describe_expr(e: SpecExpr) -> Seq<char> {
    match e {
        SpecExpr::IntLit { text } => "IntLit { "@ + "text: "@ + spec_quoted(text) + " }"@,
        SpecExpr::FloatLit { text } => "FloatLit { "@ + "text: "@ + spec_quoted(text) + " }"@,
        SpecExpr::TextLit { text } => "TextLit { "@ + "text: "@ + spec_quoted(text) + " }"@,
        SpecExpr::Ident { name } => "Ident { "@ + "name: "@ + spec_quoted(name) + " }"@,
        SpecExpr::VariantQual { enum_name, variant } => "VariantQual { "@ + "enum_name: "@ + spec_quoted(enum_name) + ", "@ + "variant: "@ + spec_quoted(variant) + " }"@,
        SpecExpr::Unit => "Unit"@,
        SpecExpr::Hole => "Hole"@,
        SpecExpr::Break => "Break"@,
        SpecExpr::Continue => "Continue"@,
        SpecExpr::Spread => "Spread"@,
        SpecExpr::DefaultStep => "DefaultStep"@,
        SpecExpr::Return(..) => "Return(..)"@,
        SpecExpr::Question(..) => "Question(..)"@,
        SpecExpr::Pipe { .. } => "Pipe { .. }"@,
        SpecExpr::PipeFallback { .. } => "PipeFallback { .. }"@,
        SpecExpr::Apply { .. } => "Apply { .. }"@,
        SpecExpr::Let { .. } => "Let { .. }"@,
        SpecExpr::Var { .. } => "Var { .. }"@,
        SpecExpr::Lambda { .. } => "Lambda { .. }"@,
        SpecExpr::Match { .. } => "Match { .. }"@,
        SpecExpr::TypeAscription { .. } => "TypeAscription { .. }"@,
        SpecExpr::Grouping { .. } => "Grouping { .. }"@,
        SpecExpr::Tuple { .. } => "Tuple { .. }"@,
        SpecExpr::ActionCall { .. } => "ActionCall { .. }"@,
        SpecExpr::Loop { .. } => "Loop { .. }"@,
        SpecExpr::Block { .. } => "Block { .. }"@,
        SpecExpr::Reassign { .. } => "Reassign { .. }"@,
        SpecExpr::DotAccess { .. } => "DotAccess { .. }"@,
        SpecExpr::ListLit { .. } => "ListLit { .. }"@,
        SpecExpr::ArrayLit { .. } => "ArrayLit { .. }"@,
        SpecExpr::RangeLit { .. } => "RangeLit { .. }"@,
        SpecExpr::ForIn { .. } => "ForIn { .. }"@,
        SpecExpr::In { .. } => "In { .. }"@,
        SpecExpr::ChannelSend { .. } => "ChannelSend { .. }"@,
        SpecExpr::ChannelRecv { .. } => "ChannelRecv { .. }"@,
        SpecExpr::Select { .. } => "Select { .. }"@,
    }
}

/// Appends `s` quoted to `out`.
fn push_quoted(out: &mut String, s: &String)
    ensures
        final(out)@ == old(out)@ + spec_quoted(s@),
{
    push_char(out, '"');
    let cs = chars_of(s.as_str());
    let ghost o = out@;
    let mut i: usize = 0;
    while i < cs.len()
        invariant
            i <= cs@.len(),
            cs@ == s@,
            out@ == o + spec_quoted_body(cs@.take(i as int)),
        decreases cs@.len() - i,
    {
        let c = cs[i];
        proof {
            assert(cs@.take(i + 1).drop_last() =~= cs@.take(i as int));
            assert(cs@.take(i + 1).last() == c);
        }
        if c == '"' || c == '\\' {
            push_char(out, '\\');
            push_char(out, c);
            assert(out@ =~= o + spec_quoted_body(cs@.take(i + 1)));
        } else {
            push_char(out, c);
            assert(out@ =~= o + spec_quoted_body(cs@.take(i + 1)));
        }
        i += 1;
    }
    assert(cs@.take(cs@.len() as int) =~= s@);
    push_char(out, '"');
    assert(out@ =~= old(out)@ + spec_quoted(s@));
}

/// Shows an expression in a diagnostic (see [`spec_describe_expr`]).
pub fn describe_expr(e: &Expr) -> (r: String)
    ensures
        r@ == spec_describe_expr(e@),
{
    let mut out = String::new();
    match e {
        Expr::IntLit { text } => {
            push_str(&mut out, "IntLit { ");
            push_str(&mut out, "text: ");
            push_quoted(&mut out, text);
            push_str(&mut out, " }");
        },
        Expr::FloatLit { text } => {
            push_str(&mut out, "FloatLit { ");
            push_str(&mut out, "text: ");
            push_quoted(&mut out, text);
            push_str(&mut out, " }");
        },
        Expr::TextLit { text } => {
            push_str(&mut out, "TextLit { ");
            push_str(&mut out, "text: ");
            push_quoted(&mut out, text);
            push_str(&mut out, " }");
        },
        Expr::Ident { name } => {
            push_str(&mut out, "Ident { ");
            push_str(&mut out, "name: ");
            push_quoted(&mut out, name);
            push_str(&mut out, " }");
        },
        Expr::VariantQual { enum_name, variant } => {
            push_str(&mut out, "VariantQual { ");
            push_str(&mut out, "enum_name: ");
            push_quoted(&mut out, enum_name);
            push_str(&mut out, ", ");
            push_str(&mut out, "variant: ");
            push_quoted(&mut out, variant);
            push_str(&mut out, " }");
        },
        Expr::Unit => push_str(&mut out, "Unit"),
        Expr::Hole => push_str(&mut out, "Hole"),
        Expr::Break => push_str(&mut out, "Break"),
        Expr::Continue => push_str(&mut out, "Continue"),
        Expr::Spread => push_str(&mut out, "Spread"),
        Expr::DefaultStep => push_str(&mut out, "DefaultStep"),
        Expr::Return(..) => push_str(&mut out, "Return(..)"),
        Expr::Question(..) => push_str(&mut out, "Question(..)"),
        Expr::Pipe { .. } => push_str(&mut out, "Pipe { .. }"),
        Expr::PipeFallback { .. } => push_str(&mut out, "PipeFallback { .. }"),
        Expr::Apply { .. } => push_str(&mut out, "Apply { .. }"),
        Expr::Let { .. } => push_str(&mut out, "Let { .. }"),
        Expr::Var { .. } => push_str(&mut out, "Var { .. }"),
        Expr::Lambda { .. } => push_str(&mut out, "Lambda { .. }"),
        Expr::Match { .. } => push_str(&mut out, "Match { .. }"),
        Expr::TypeAscription { .. } => push_str(&mut out, "TypeAscription { .. }"),
        Expr::Grouping { .. } => push_str(&mut out, "Grouping { .. }"),
        Expr::Tuple { .. } => push_str(&mut out, "Tuple { .. }"),
        Expr::ActionCall { .. } => push_str(&mut out, "ActionCall { .. }"),
        Expr::Loop { .. } => push_str(&mut out, "Loop { .. }"),
        Expr::Block { .. } => push_str(&mut out, "Block { .. }"),
        Expr::Reassign { .. } => push_str(&mut out, "Reassign { .. }"),
        Expr::DotAccess { .. } => push_str(&mut out, "DotAccess { .. }"),
        Expr::ListLit { .. } => push_str(&mut out, "ListLit { .. }"),
        Expr::ArrayLit { .. } => push_str(&mut out, "ArrayLit { .. }"),
        Expr::RangeLit { .. } => push_str(&mut out, "RangeLit { .. }"),
        Expr::ForIn { .. } => push_str(&mut out, "ForIn { .. }"),
        Expr::In { .. } => push_str(&mut out, "In { .. }"),
        Expr::ChannelSend { .. } => push_str(&mut out, "ChannelSend { .. }"),
        Expr::ChannelRecv { .. } => push_str(&mut out, "ChannelRecv { .. }"),
        Expr::Select { .. } => push_str(&mut out, "Select { .. }"),
    }
    out
}

/// The arguments of a builtin call that takes a tuple: a tuple, possibly
/// in parentheses, gives its elements, any other parenthesised expression
/// is the one argument, and `()` is none; anything else is refused.
pub open spec fn spec_extract_tuple_elements(args: SExpr) -> Option<Seq<SExpr>> {
    match args.node {
        SpecExpr::Tuple { elements } => Some(elements),
        SpecExpr::Grouping { inner } => match inner.node {
            SpecExpr::Tuple { elements } => Some(elements),
            _ => Some(seq![*inner]),
        },
        SpecExpr::Unit => Some(Seq::empty()),
        _ => None,
    }
}

/// Reads the arguments of a builtin call that takes a tuple.
pub fn extract_tuple_elements(args: &Spanned<Expr>) -> (r: Result<Vec<Spanned<Expr>>, TypeMismatch>)
    ensures
        match (r, spec_extract_tuple_elements(args@)) {
            (Ok(v), Some(sv)) => sexprs_view(v@) == sv,
            (Err(m), None) => m.expected@ == "Tuple"@ && m.found@ == spec_describe_expr(args@.node)
                && m.span == args.span,
            _ => false,
        },
{
    match &args.node {
        Expr::Tuple { elements } => Ok(clone_exprs(elements)),
        Expr::Grouping { inner } => match &inner.node {
            Expr::Tuple { elements } => {
                assert(args@.node == SpecExpr::Grouping { inner: Box::new(sexpr_view(**inner)) });
                assert(sexpr_view(**inner).node == SpecExpr::Tuple { elements: sexprs_view(elements@) });
                Ok(clone_exprs(elements))
            },
            _ => {
                assert(args@.node == SpecExpr::Grouping { inner: Box::new(sexpr_view(**inner)) });
                assert(!(sexpr_view(**inner).node is Tuple));
                let mut out: Vec<Spanned<Expr>> = Vec::new();
                out.push(clone_expr(inner));
                assert(sexprs_view(out@) =~= seq![sexpr_view(**inner)]);
                Ok(out)
            },
        },
        Expr::Unit => {
            let out: Vec<Spanned<Expr>> = Vec::new();
            assert(sexprs_view(out@) =~= Seq::<SExpr>::empty());
            Ok(out)
        },
        _ => Err(
            TypeMismatch {
                expected: owned("Tuple"),
                found: describe_expr(&args.node),
                span: args.span,
            },
        ),
    }
}

/// Replaces every hole of `expr` by the name `var_name`, looking through
/// applications, ascriptions, parentheses and tuples.
pub fn substitute_hole(expr: &Spanned<Expr>, var_name: &str) -> (r: Spanned<Expr>)
    ensures
        r@ == spec_substitute_hole(expr@, SpecExpr::Ident { name: var_name@ }),
{
    let value = Spanned::new(Expr::Ident { name: owned(var_name) }, expr.span);
    crate::const_eval::substitute_hole(expr, &value)
}

/// How a refinement predicate is shown in a diagnostic: `> _ 0` for the
/// application of `>` to a hole and `0`; text literals in quotes,
/// parentheses dropped, anything else as `{?}`.
pub open spec fn spec_expr_to_string(e: SExpr) -> Seq<char>
    decreases e,
{
    match e.node {
        SpecExpr::Ident { name } => name,
        SpecExpr::Hole => "_"@,
        SpecExpr::IntLit { text } => text,
        SpecExpr::FloatLit { text } => text,
        SpecExpr::TextLit { text } => "\""@ + text + "\""@,
        SpecExpr::Apply { callee, args } => spec_expr_to_string(*callee) + " "@ + spec_join(
            spec_exprs_to_strings(args),
            " "@,
        ),
        SpecExpr::Grouping { inner } => spec_expr_to_string(*inner),
        _ => "{?}"@,
    }
}

/// Each of `args` as [`spec_expr_to_string`] shows it.
pub open spec fn spec_exprs_to_strings(args: Seq<SExpr>) -> Seq<Seq<char>>
    decreases args,
{
    Seq::new(
        args.len(),
        |i: int|
            if 0 <= i < args.len() {
                spec_expr_to_string(args[i])
            } else {
                Seq::empty()
            },
    )
}

/// Shows a refinement predicate for a diagnostic.
pub fn expr_to_string(expr: &Spanned<Expr>) -> (r: String)
    ensures
        r@ == spec_expr_to_string(expr@),
    decreases expr,
{
    match &expr.node {
        Expr::Ident { name } => string_clone(name),
        Expr::Hole => owned("_"),
        Expr::IntLit { text } => string_clone(text),
        Expr::FloatLit { text } => string_clone(text),
        Expr::TextLit { text } => {
            let mut s = owned("\"");
            push_str(&mut s, text.as_str());
            push_str(&mut s, "\"");
            assert(s@ == spec_expr_to_string(expr@));
            s
        },
        Expr::Apply { callee, args } => {
            let ghost a = sexprs_view(args@);
            assert(expr@.node == SpecExpr::Apply { callee: Box::new(sexpr_view(**callee)), args: a });
            let mut parts: Vec<String> = Vec::new();
            let mut i: usize = 0;
            while i < args.len()
                invariant
                    i <= args@.len(),
                    expr.node == (Expr::Apply { callee: *callee, args: *args }),
                    a == sexprs_view(args@),
                    names_view(parts@) == Seq::new(i as nat, |q: int| spec_expr_to_string(a[q])),
                decreases args@.len() - i,
            {
                proof {
                    assert(decreases_to!(*expr => expr.node));
                    assert(decreases_to!(expr.node => (expr.node)->Apply_args));
                    assert(decreases_to!(*args => args@));
                    assert(decreases_to!(args@ => args@[i as int]));
                }
                let p = expr_to_string(&args[i]);
                let ghost before = parts@;
                assert(before.len() == i) by {
                    assert(names_view(before).len() == before.len());
                }
                parts.push(p);
                proof {
                    assert(a[i as int] == sexpr_view(args@[i as int]));
                    assert forall|q: int| 0 <= q < i + 1 implies #[trigger] names_view(parts@)[q]
                        == Seq::new((i + 1) as nat, |q: int| spec_expr_to_string(a[q]))[q] by {
                        if q < i {
                            assert(parts@[q] == before[q]);
                            assert(names_view(before)[q] == Seq::new(i as nat, |q: int| spec_expr_to_string(a[q]))[q]);
                        }
                    }
                    assert(names_view(parts@) =~= Seq::new((i + 1) as nat, |q: int| spec_expr_to_string(a[q])));
                }
                i += 1;
            }
            let mut s = expr_to_string(callee);
            push_str(&mut s, " ");
            let joined = join_strings(&parts, " ");
            push_str(&mut s, joined.as_str());
            proof {
                assert(names_view(parts@) =~= spec_exprs_to_strings(a));
                assert(s@ == spec_expr_to_string(expr@));
            }
            s
        },
        Expr::Grouping { inner } => expr_to_string(inner),
        _ => {
            assert(spec_expr_to_string(expr@) == "{?}"@);
            owned("{?}")
        },
    }
}

} // verus!
